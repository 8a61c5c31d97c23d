//! The spatial entity store: a table of the live entities, each with its
//! transform, kept in the order in which they were spawned.

use crate::geometry::Transform;
use crate::timer::Countdown;
use vstd::prelude::*;

verus! {

/// Identifier of an entity. Identifiers are handed out in ascending order
/// and never reused.
pub type Entity = u64;

/// What an entity is.
#[derive(Clone, Copy, PartialEq, Eq, Debug, Structural)]
pub enum EntityKind {
    /// The head of the snake.
    SnakeHead,
    /// A body segment of the snake.
    SnakeBody,
    /// A coin waiting to be collected.
    Coin,
}

/// Collision immunity of a snake entity: while `ignore_collision` holds the
/// entity cannot end the game, and `collision_timer` counts toward the end
/// of that window.
#[derive(Clone, Copy, PartialEq, Eq, Debug, Structural)]
pub struct SnakeSegment {
    pub ignore_collision: bool,
    pub collision_timer: Countdown,
}

/// One live entity.
#[derive(Clone, Copy, PartialEq, Eq, Debug, Structural)]
pub struct EntityRecord {
    pub entity: Entity,
    pub kind: EntityKind,
    pub transform: Transform,
    pub segment: SnakeSegment,
}

/// The table of live entities.
#[derive(Clone, PartialEq, Eq, Debug)]
pub struct EntityStore {
    records: Vec<EntityRecord>,
    next_entity: Entity,
}

/// Identifiers ascend strictly along `records` and all lie below `bound`.
pub open spec fn ids_ascending(records: Seq<EntityRecord>, bound: int) -> bool {
    &&& forall|i: int, j: int|
        0 <= i < j < records.len() ==> (#[trigger] records[i]).entity < (#[trigger] records[j]).entity
    &&& forall|i: int| 0 <= i < records.len() ==> (#[trigger] records[i]).entity < bound
}

/// `entity` is live in `records`.
pub open spec fn has_entity(records: Seq<EntityRecord>, entity: Entity) -> bool {
    exists|i: int| 0 <= i < records.len() && (#[trigger] records[i]).entity == entity
}

/// An index at which `entity` stands in `records`.
pub open spec fn index_of(records: Seq<EntityRecord>, entity: Entity) -> int {
    choose|i: int| 0 <= i < records.len() && (#[trigger] records[i]).entity == entity
}

/// The transform of `entity` in `records`, if it is live.
pub open spec fn transform_of(records: Seq<EntityRecord>, entity: Entity) -> Option<Transform> {
    if has_entity(records, entity) {
        Some(records[index_of(records, entity)].transform)
    } else {
        None
    }
}

/// `record` with another transform.
pub open spec fn moved(record: EntityRecord, transform: Transform) -> EntityRecord {
    EntityRecord { transform, ..record }
}

/// `records` with the transform of `entity` replaced, and unchanged where
/// `entity` is not live.
pub open spec fn with_transform(
    records: Seq<EntityRecord>,
    entity: Entity,
    transform: Transform,
) -> Seq<EntityRecord> {
    Seq::new(
        records.len(),
        |i: int|
            if records[i].entity == entity {
                moved(records[i], transform)
            } else {
                records[i]
            },
    )
}

/// `records` with the immunity state of `entity` replaced.
pub open spec fn with_segment(
    records: Seq<EntityRecord>,
    entity: Entity,
    segment: SnakeSegment,
) -> Seq<EntityRecord> {
    Seq::new(
        records.len(),
        |i: int|
            if records[i].entity == entity {
                EntityRecord { segment, ..records[i] }
            } else {
                records[i]
            },
    )
}

/// `records` without `entity`.
pub open spec fn without(records: Seq<EntityRecord>, entity: Entity) -> Seq<EntityRecord> {
    records.filter(|r: EntityRecord| r.entity != entity)
}

/// `records` holds a head.
pub open spec fn has_head(records: Seq<EntityRecord>) -> bool {
    exists|i: int| 0 <= i < records.len() && (#[trigger] records[i]).kind == EntityKind::SnakeHead
}

/// The record at `i` is the first head in `records`.
pub open spec fn is_first_head(records: Seq<EntityRecord>, i: int) -> bool {
    &&& 0 <= i < records.len()
    &&& records[i].kind == EntityKind::SnakeHead
    &&& forall|k: int| 0 <= k < i ==> (#[trigger] records[k]).kind != EntityKind::SnakeHead
}

/// The head of the snake: the earliest spawned live entity that is a head.
pub open spec fn head_of(records: Seq<EntityRecord>) -> Option<EntityRecord> {
    if has_head(records) {
        Some(records[choose|i: int| is_first_head(records, i)])
    } else {
        None
    }
}

impl SnakeSegment {
    /// The immunity state of an entity that never was immune.
    pub open spec fn disabled_spec() -> SnakeSegment {
        SnakeSegment { ignore_collision: false, collision_timer: Countdown::disabled_spec() }
    }

    #[verifier::when_used_as_spec(disabled_spec)]
    pub fn disabled() -> (s: SnakeSegment)
        ensures
            s == SnakeSegment::disabled_spec(),
    {
        SnakeSegment { ignore_collision: false, collision_timer: Countdown::disabled() }
    }
}

impl View for EntityStore {
    type V = Seq<EntityRecord>;

    closed spec fn view(&self) -> Seq<EntityRecord> {
        self.records@
    }
}

impl EntityStore {
    /// The identifier that the next spawned entity receives.
    pub closed spec fn next_entity(&self) -> Entity {
        self.next_entity
    }

    /// The store's invariant: identifiers ascend in spawn order and are all
    /// below the next one to hand out, so no two live entities share one.
    pub open spec fn wf(&self) -> bool {
        ids_ascending(self@, self.next_entity() as int)
    }

    /// An empty store.
    pub fn new() -> (store: EntityStore)
        ensures
            store@ == Seq::<EntityRecord>::empty(),
            store.next_entity() == 0,
            store.wf(),
    {
        EntityStore { records: Vec::new(), next_entity: 0 }
    }

    /// The live entities in spawn order.
    pub fn records(&self) -> (records: &Vec<EntityRecord>)
        ensures
            records@ == self@,
    {
        &self.records
    }

    /// The identifier that `spawn` hands out next.
    pub fn peek_next_entity(&self) -> (next: Entity)
        ensures
            next == self.next_entity(),
    {
        self.next_entity
    }

    /// Number of live entities.
    pub fn len(&self) -> (n: usize)
        ensures
            n == self@.len(),
    {
        self.records.len()
    }

    /// Spawns an entity and returns its identifier. Nothing is spawned once
    /// the identifiers are used up.
    pub fn spawn(&mut self, kind: EntityKind, transform: Transform, segment: SnakeSegment) -> (id:
        Option<Entity>)
        requires
            old(self).wf(),
        ensures
            final(self).wf(),
            old(self).next_entity() < u64::MAX ==> {
                &&& id == Some(old(self).next_entity())
                &&& final(self).next_entity() == old(self).next_entity() + 1
                &&& final(self)@ == old(self)@.push(
                    EntityRecord { entity: old(self).next_entity(), kind, transform, segment },
                )
            },
            old(self).next_entity() == u64::MAX ==> {
                &&& id is None
                &&& final(self).next_entity() == old(self).next_entity()
                &&& final(self)@ == old(self)@
            },
    {
        if self.next_entity == u64::MAX {
            return None;
        }
        let entity = self.next_entity;
        self.records.push(EntityRecord { entity, kind, transform, segment });
        self.next_entity = entity + 1;
        Some(entity)
    }

    /// The place of `entity` in the table, if it is live.
    pub fn find(&self, entity: Entity) -> (found: Option<usize>)
        requires
            self.wf(),
        ensures
            found is Some == has_entity(self@, entity),
            found is Some ==> found->0 as int == index_of(self@, entity),
            found is Some ==> 0 <= found->0 < self@.len() && self@[found->0 as int].entity == entity,
    {
        let mut i: usize = 0;
        while i < self.records.len()
            invariant
                i <= self.records.len(),
                self.wf(),
                forall|k: int| 0 <= k < i ==> (#[trigger] self.records@[k]).entity != entity,
            decreases self.records.len() - i,
        {
            if self.records[i].entity == entity {
                proof {
                    lemma_index_unique(self@, self.next_entity() as int, entity, i as int);
                }
                return Some(i);
            }
            i += 1;
        }
        None
    }

    /// The head of the snake, if there is one.
    pub fn head(&self) -> (head: Option<EntityRecord>)
        ensures
            head == head_of(self@),
            head is Some ==> has_entity(self@, head->0.entity) && head->0.kind
                == EntityKind::SnakeHead,
    {
        let mut i: usize = 0;
        while i < self.records.len()
            invariant
                i <= self.records.len(),
                forall|k: int| 0 <= k < i ==> (#[trigger] self.records@[k]).kind
                    != EntityKind::SnakeHead,
            decreases self.records.len() - i,
        {
            if self.records[i].kind == EntityKind::SnakeHead {
                proof {
                    lemma_first_head_unique(self@, i as int);
                }
                return Some(self.records[i]);
            }
            i += 1;
        }
        None
    }

    /// The record of `entity`, if it is live.
    pub fn get(&self, entity: Entity) -> (record: Option<EntityRecord>)
        requires
            self.wf(),
        ensures
            record is Some == has_entity(self@, entity),
            record is Some ==> record->0 == self@[index_of(self@, entity)],
    {
        match self.find(entity) {
            Some(i) => Some(self.records[i]),
            None => None,
        }
    }

    /// The transform of `entity`, if it is live.
    pub fn transform(&self, entity: Entity) -> (transform: Option<Transform>)
        requires
            self.wf(),
        ensures
            transform == transform_of(self@, entity),
    {
        match self.find(entity) {
            Some(i) => Some(self.records[i].transform),
            None => None,
        }
    }

    /// Gives `entity` another transform. Returns whether it was live.
    pub fn set_transform(&mut self, entity: Entity, transform: Transform) -> (live: bool)
        requires
            old(self).wf(),
        ensures
            final(self).wf(),
            final(self).next_entity() == old(self).next_entity(),
            live == has_entity(old(self)@, entity),
            final(self)@ == with_transform(old(self)@, entity, transform),
    {
        match self.find(entity) {
            Some(i) => {
                let record = self.records[i];
                self.records.set(i, EntityRecord { transform, ..record });
                proof {
                    let old_records = old(self)@;
                    assert forall|k: int| 0 <= k < old_records.len() implies (
                    #[trigger] final(self)@[k]) == with_transform(
                        old_records,
                        entity,
                        transform,
                    )[k] by {
                        if k != i as int && old_records[k].entity == entity {
                            lemma_index_unique(old_records, old(self).next_entity() as int, entity, k);
                        }
                    }
                    assert(self@ =~= with_transform(old_records, entity, transform));
                }
                true
            },
            None => {
                proof {
                    assert(self@ =~= with_transform(self@, entity, transform));
                }
                false
            },
        }
    }

    /// Gives `entity` another immunity state. Returns whether it was live.
    pub fn set_segment(&mut self, entity: Entity, segment: SnakeSegment) -> (live: bool)
        requires
            old(self).wf(),
        ensures
            final(self).wf(),
            final(self).next_entity() == old(self).next_entity(),
            live == has_entity(old(self)@, entity),
            final(self)@ == with_segment(old(self)@, entity, segment),
    {
        match self.find(entity) {
            Some(i) => {
                let record = self.records[i];
                self.records.set(i, EntityRecord { segment, ..record });
                proof {
                    let old_records = old(self)@;
                    assert forall|k: int| 0 <= k < old_records.len() implies (
                    #[trigger] final(self)@[k]) == with_segment(old_records, entity, segment)[k] by {
                        if k != i as int && old_records[k].entity == entity {
                            lemma_index_unique(old_records, old(self).next_entity() as int, entity, k);
                        }
                    }
                    assert(self@ =~= with_segment(old_records, entity, segment));
                }
                true
            },
            None => {
                proof {
                    assert(self@ =~= with_segment(self@, entity, segment));
                }
                false
            },
        }
    }

    /// Destroys `entity`. Returns whether it was live.
    pub fn despawn(&mut self, entity: Entity) -> (live: bool)
        requires
            old(self).wf(),
        ensures
            final(self).wf(),
            final(self).next_entity() == old(self).next_entity(),
            live == has_entity(old(self)@, entity),
            final(self)@ == without(old(self)@, entity),
    {
        let ghost keep = |r: EntityRecord| r.entity != entity;
        let mut kept: Vec<EntityRecord> = Vec::new();
        let mut live = false;
        let mut i: usize = 0;
        proof {
            assert(self.records@.take(0) =~= Seq::<EntityRecord>::empty());
            lemma_filter_empty(keep);
        }
        while i < self.records.len()
            invariant
                i <= self.records.len(),
                keep == |r: EntityRecord| r.entity != entity,
                kept@ == self.records@.take(i as int).filter(keep),
                live == has_entity(self.records@.take(i as int), entity),
            decreases self.records.len() - i,
        {
            let record = self.records[i];
            proof {
                lemma_filter_step(self.records@, keep, i as int);
                lemma_has_entity_step(self.records@, entity, i as int);
            }
            if record.entity != entity {
                kept.push(record);
            } else {
                live = true;
            }
            i += 1;
        }
        proof {
            assert(self.records@.take(i as int) =~= self.records@);
            lemma_filter_ascending(self@, keep, self.next_entity() as int);
        }
        self.records = kept;
        live
    }

    /// Replaces the table by `records`, which must keep the identifiers in
    /// ascending order below the next identifier: a selection of the live
    /// entities, with or without changes to what they hold.
    pub(crate) fn replace_records(&mut self, records: Vec<EntityRecord>)
        requires
            ids_ascending(records@, old(self).next_entity() as int),
        ensures
            final(self).wf(),
            final(self).next_entity() == old(self).next_entity(),
            final(self)@ == records@,
    {
        self.records = records;
    }
}

/// Under ascending identifiers an entity stands at one index only.
pub proof fn lemma_index_unique(records: Seq<EntityRecord>, bound: int, entity: Entity, i: int)
    requires
        ids_ascending(records, bound),
        0 <= i < records.len(),
        records[i].entity == entity,
    ensures
        has_entity(records, entity),
        index_of(records, entity) == i,
        forall|k: int| 0 <= k < records.len() && (#[trigger] records[k]).entity == entity ==> k == i,
{
    let j = index_of(records, entity);
    assert(0 <= j < records.len() && records[j].entity == entity);
    if j < i {
        assert(records[j].entity < records[i].entity);
    } else if i < j {
        assert(records[i].entity < records[j].entity);
    }
    assert forall|k: int| 0 <= k < records.len() && (#[trigger] records[k]).entity
        == entity implies k == i by {
        if k < i {
            assert(records[k].entity < records[i].entity);
        } else if i < k {
            assert(records[i].entity < records[k].entity);
        }
    }
}

/// Among the heads up to index `j` one comes first.
proof fn lemma_first_head_before(records: Seq<EntityRecord>, j: int) -> (i: int)
    requires
        0 <= j < records.len(),
        records[j].kind == EntityKind::SnakeHead,
    ensures
        is_first_head(records, i),
        i <= j,
    decreases j,
{
    if exists|k: int| 0 <= k < j && (#[trigger] records[k]).kind == EntityKind::SnakeHead {
        let k = choose|k: int| 0 <= k < j && (#[trigger] records[k]).kind == EntityKind::SnakeHead;
        lemma_first_head_before(records, k)
    } else {
        j
    }
}

/// Where there is a head, `head_of` is the first of them.
pub proof fn lemma_head_is_first(records: Seq<EntityRecord>) -> (i: int)
    requires
        has_head(records),
    ensures
        is_first_head(records, i),
        head_of(records) == Some(records[i]),
{
    let j = choose|j: int| 0 <= j < records.len() && (#[trigger] records[j]).kind
        == EntityKind::SnakeHead;
    let i = lemma_first_head_before(records, j);
    lemma_first_head_unique(records, i);
    i
}

/// There is one first head at most.
pub proof fn lemma_first_head_unique(records: Seq<EntityRecord>, i: int)
    requires
        is_first_head(records, i),
    ensures
        has_head(records),
        head_of(records) == Some(records[i]),
{
    let j = choose|j: int| is_first_head(records, j);
    assert(is_first_head(records, j));
    if j < i {
        assert(records[j].kind != EntityKind::SnakeHead);
    } else if i < j {
        assert(records[i].kind != EntityKind::SnakeHead);
    }
}

/// Filtering nothing leaves nothing.
pub proof fn lemma_filter_empty(keep: spec_fn(EntityRecord) -> bool)
    ensures
        Seq::<EntityRecord>::empty().filter(keep) == Seq::<EntityRecord>::empty(),
{
    reveal(Seq::filter);
}

/// Filtering one record more either appends it or changes nothing.
pub proof fn lemma_filter_step(
    records: Seq<EntityRecord>,
    keep: spec_fn(EntityRecord) -> bool,
    i: int,
)
    requires
        0 <= i < records.len(),
    ensures
        records.take(i + 1).filter(keep) == if keep(records[i]) {
            records.take(i).filter(keep).push(records[i])
        } else {
            records.take(i).filter(keep)
        },
{
    reveal(Seq::filter);
    assert(records.take(i + 1).drop_last() =~= records.take(i));
    assert(records.take(i + 1).last() == records[i]);
}

/// A filter that every record passes changes nothing.
pub proof fn lemma_filter_keeps_all(records: Seq<EntityRecord>, keep: spec_fn(EntityRecord) -> bool)
    requires
        forall|i: int| 0 <= i < records.len() ==> keep(#[trigger] records[i]),
    ensures
        records.filter(keep) == records,
    decreases records.len(),
{
    reveal(Seq::filter);
    if records.len() > 0 {
        let front = records.drop_last();
        assert forall|i: int| 0 <= i < front.len() implies keep(#[trigger] front[i]) by {
            assert(front[i] == records[i]);
        }
        lemma_filter_keeps_all(front, keep);
        assert(keep(records[records.len() - 1]));
        assert(front.push(records.last()) =~= records);
    }
}

/// A filter that no record passes leaves nothing.
pub proof fn lemma_filter_keeps_none(records: Seq<EntityRecord>, keep: spec_fn(EntityRecord) -> bool)
    requires
        forall|i: int| 0 <= i < records.len() ==> !keep(#[trigger] records[i]),
    ensures
        records.filter(keep).len() == 0,
    decreases records.len(),
{
    reveal(Seq::filter);
    if records.len() > 0 {
        let front = records.drop_last();
        assert forall|i: int| 0 <= i < front.len() implies !keep(#[trigger] front[i]) by {
            assert(front[i] == records[i]);
        }
        lemma_filter_keeps_none(front, keep);
        assert(!keep(records[records.len() - 1]));
    }
}

/// An entity is live among the first `i + 1` records where it is live among
/// the first `i` or is the next one.
pub proof fn lemma_has_entity_step(records: Seq<EntityRecord>, entity: Entity, i: int)
    requires
        0 <= i < records.len(),
    ensures
        has_entity(records.take(i + 1), entity) == (has_entity(records.take(i), entity)
            || records[i].entity == entity),
{
    let longer = records.take(i + 1);
    let shorter = records.take(i);
    if has_entity(shorter, entity) {
        let k = index_of(shorter, entity);
        assert(longer[k].entity == entity);
    }
    if records[i].entity == entity {
        assert(longer[i].entity == entity);
    }
    if has_entity(longer, entity) {
        let k = index_of(longer, entity);
        if k < i {
            assert(shorter[k].entity == entity);
        }
    }
}

/// A selection of records with ascending identifiers has ascending
/// identifiers.
pub proof fn lemma_filter_ascending(
    records: Seq<EntityRecord>,
    keep: spec_fn(EntityRecord) -> bool,
    bound: int,
)
    requires
        ids_ascending(records, bound),
    ensures
        ids_ascending(records.filter(keep), bound),
        forall|k: int|
            0 <= k < records.filter(keep).len() ==> exists|i: int|
                0 <= i < records.len() && #[trigger] records[i] == #[trigger] records.filter(
                    keep,
                )[k],
    decreases records.len(),
{
    reveal(Seq::filter);
    if records.len() > 0 {
        let front = records.drop_last();
        assert forall|i: int, j: int| 0 <= i < j < front.len() implies (#[trigger] front[i]).entity
            < (#[trigger] front[j]).entity by {
            assert(front[i] == records[i] && front[j] == records[j]);
        }
        assert forall|i: int| 0 <= i < front.len() implies (#[trigger] front[i]).entity < bound by {
            assert(front[i] == records[i]);
        }
        lemma_filter_ascending(front, keep, bound);
        let kept_front = front.filter(keep);
        let kept = records.filter(keep);
        assert forall|k: int| 0 <= k < kept_front.len() implies (#[trigger] kept_front[k]).entity
            < records.last().entity by {
            let i = choose|i: int| 0 <= i < front.len() && front[i] == kept_front[k];
            assert(front[i] == records[i]);
            assert(records[i].entity < records[records.len() - 1].entity);
        }
        assert forall|k: int| 0 <= k < kept.len() implies exists|i: int|
            0 <= i < records.len() && #[trigger] records[i] == #[trigger] kept[k] by {
            if k < kept_front.len() {
                let i = choose|i: int| 0 <= i < front.len() && front[i] == kept_front[k];
                assert(records[i] == kept[k]);
            } else {
                assert(records[records.len() - 1] == kept[k]);
            }
        }
    }
}

} // verus!
