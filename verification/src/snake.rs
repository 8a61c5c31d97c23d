//! The snake: its head, its chain of segments, growth and self-collision.

use crate::entity::{
    has_entity, head_of, index_of, transform_of, with_transform, Entity, EntityKind, EntityRecord,
    SnakeSegment,
};
use crate::game_state::GameState;
use crate::coin::WindowSize;
use crate::geometry::{
    blend_weight, clamp_coordinate, follow_weight, normalized, Direction, Position, Transform,
    POSITION_UNIT,
};
use crate::session::{GameSession, SessionView};
use crate::timer::Countdown;
use vstd::prelude::*;

verus! {

/// Speed of the head at the start of a run, in game units per second.
pub const BASE_SPEED: u32 = 200;

/// Speed gained with each segment.
pub const SPEED_INCREMENT: u32 = 10;

/// Seconds for which a new segment cannot end the game.
pub const IMMUNITY_SECONDS: u32 = 2;

/// Radius of the head and of every segment, in position units.
pub const SNAKE_RADIUS: i32 = 10_000;

/// How deep a segment must reach into the head's circle to end the game, in
/// position units: the game is over where the distance plus this margin is
/// less than the radius.
pub const SELF_COLLISION_MARGIN: i32 = 7_000;

/// The pointer steers the head only from farther away than this, in
/// position units.
pub const STEERING_DEADZONE: i32 = POSITION_UNIT;

/// The chain: the snake's entities in order, head first.
#[derive(Clone, PartialEq, Eq, Debug)]
pub struct SnakeSegments(pub Vec<Entity>);

/// Speed of the head in game units per second.
#[derive(Clone, Copy, PartialEq, Eq, Debug, Structural)]
pub struct SnakeSpeed(pub u32);

/// Where the pointer was last seen, in game coordinates: origin at the
/// centre of the window, Y pointing up.
#[derive(Clone, Copy, PartialEq, Eq, Debug, Structural)]
pub struct MousePosition(pub Position);

/// The last heading of the head: where it keeps going while the pointer
/// rests on it.
#[derive(Clone, Copy, PartialEq, Eq, Debug, Structural)]
pub struct LastDirection(pub Direction);

impl Default for SnakeSegments {
    fn default() -> (chain: SnakeSegments)
        ensures
            chain.0@ == Seq::<Entity>::empty(),
    {
        SnakeSegments(Vec::new())
    }
}

/// The immunity state of a segment that was just spawned.
pub open spec fn fresh_immunity() -> SnakeSegment {
    SnakeSegment { ignore_collision: true, collision_timer: Countdown::of_seconds(IMMUNITY_SECONDS) }
}

/// `entity` is a live entity of the snake, head or body.
pub open spec fn is_snake_entity(records: Seq<EntityRecord>, entity: Entity) -> bool {
    has_entity(records, entity) && records[index_of(records, entity)].kind != EntityKind::Coin
}

/// The place in game coordinates of a pointer seen at `cursor` in window
/// coordinates: measured from the centre of the window instead of its top
/// left corner, with Y pointing up instead of down.
pub open spec fn pointer_target(cursor: Position, window: WindowSize) -> Position {
    Position {
        x: clamp_coordinate(cursor.x - window.width as int / 2) as i32,
        y: clamp_coordinate(window.height as int / 2 - cursor.y) as i32,
    }
}

/// The heading of a head at `head` steered by a pointer at `pointer`: toward
/// the pointer where that is farther away than the dead zone, else the
/// heading it had.
pub open spec fn steered(head: Position, pointer: Position, last: Direction) -> Direction {
    if pointer.farther_than(head, STEERING_DEADZONE as int) {
        normalized(pointer.x - head.x, pointer.y - head.y)
    } else {
        last
    }
}

/// The transform of a head after a tick of `dt_ns` nanoseconds on the
/// heading `direction` at `speed`: turned to face along the heading and
/// moved along it.
pub open spec fn head_moved(from: Transform, direction: Direction, speed: u32, dt_ns: u64) -> Transform {
    Transform {
        translation: from.translation.advanced(direction, speed as int, dt_ns as int),
        rotation: direction.as_rotation(),
    }
}

/// The entities after the follow pass over `chain` from index `from` on,
/// where `target` is the transform that the entity at `from` chases. Each
/// live entity of the chain is blended toward the target by `weight`, and
/// the transform it had before becomes the target of the next one. Entries
/// that name no live entity are passed over.
pub open spec fn followed(
    records: Seq<EntityRecord>,
    chain: Seq<Entity>,
    from: int,
    target: Transform,
    weight: int,
) -> Seq<EntityRecord>
    decreases chain.len() - from,
{
    if from < 0 || from >= chain.len() {
        records
    } else {
        match transform_of(records, chain[from]) {
            None => followed(records, chain, from + 1, target, weight),
            Some(own) => followed(
                with_transform(records, chain[from], own.blended(target, weight)),
                chain,
                from + 1,
                own,
                weight,
            ),
        }
    }
}

/// The transform that the first follower chases: that of the chain's first
/// entity, or the identity transform where that entity is gone.
pub open spec fn lead_transform(records: Seq<EntityRecord>, chain: Seq<Entity>) -> Transform {
    match transform_of(records, chain[0]) {
        Some(transform) => transform,
        None => Transform::identity_spec(),
    }
}

/// A body segment that ends the game for a head at `head`: not immune, and
/// closer than the radius less the margin.
pub open spec fn ends_game(head: Position, record: EntityRecord) -> bool {
    &&& record.kind == EntityKind::SnakeBody
    &&& !record.segment.ignore_collision
    &&& head.closer_than(record.transform.translation, SNAKE_RADIUS - SELF_COLLISION_MARGIN)
}

/// An immunity state after `dt_ns` nanoseconds more: an immune entity's
/// countdown advances, and the tick on which it completes ends the immunity
/// for good. The state of an entity that is not immune stays as it is.
pub open spec fn immunity_aged(segment: SnakeSegment, dt_ns: u64) -> SnakeSegment {
    if segment.ignore_collision {
        SnakeSegment {
            ignore_collision: !segment.collision_timer.completes(dt_ns as int),
            collision_timer: segment.collision_timer.ticked(dt_ns as int),
        }
    } else {
        segment
    }
}

/// A record after `dt_ns` nanoseconds more of immunity countdown. Coins have
/// no immunity state to advance.
pub open spec fn aged(record: EntityRecord, dt_ns: u64) -> EntityRecord {
    if record.kind == EntityKind::Coin {
        record
    } else {
        EntityRecord { segment: immunity_aged(record.segment, dt_ns), ..record }
    }
}

impl SessionView {
    /// The session with the head spawned at the origin and appended to the
    /// chain. The head has no immunity window.
    pub open spec fn with_snake(self) -> SessionView {
        if self.next_entity == u64::MAX {
            self
        } else {
            SessionView {
                records: self.records.push(
                    EntityRecord {
                        entity: self.next_entity,
                        kind: EntityKind::SnakeHead,
                        transform: Transform::identity_spec(),
                        segment: SnakeSegment::disabled_spec(),
                    },
                ),
                next_entity: (self.next_entity + 1) as u64,
                chain: self.chain.push(self.next_entity),
                ..self
            }
        }
    }

    /// The session after the pointer movements of a tick were seen, given in
    /// window coordinates in the order in which they happened: the pointer is
    /// where the last of them put it. Nothing happens without a window.
    pub open spec fn after_cursor_moves(
        self,
        moves: Seq<Position>,
        window: Option<WindowSize>,
    ) -> SessionView {
        if window is Some && moves.len() > 0 {
            SessionView { mouse: pointer_target(moves.last(), window->0), ..self }
        } else {
            self
        }
    }

    /// The session after the head moved for `dt_ns` nanoseconds. While the
    /// game is being played the head turns toward the pointer, unless the
    /// pointer rests on it, faces along its heading and advances along it.
    /// Nothing happens in another state or without a head.
    pub open spec fn after_head_movement(self, dt_ns: u64) -> SessionView {
        if self.state == GameState::InGame && head_of(self.records) is Some {
            let head = head_of(self.records)->0;
            let direction = steered(head.transform.translation, self.mouse, self.last_direction);
            SessionView {
                last_direction: direction,
                records: with_transform(
                    self.records,
                    head.entity,
                    head_moved(head.transform, direction, self.speed, dt_ns),
                ),
                ..self
            }
        } else {
            self
        }
    }

    /// The session after the follow pass of a tick of `dt_ns` nanoseconds.
    /// While the game is being played every entity of the chain behind the
    /// first is blended toward the transform that its predecessor had before
    /// this pass. Nothing happens in another state or with an empty chain.
    pub open spec fn after_follow(self, dt_ns: u64) -> SessionView {
        if self.state == GameState::InGame && self.chain.len() > 0 {
            SessionView {
                records: followed(
                    self.records,
                    self.chain,
                    1,
                    lead_transform(self.records, self.chain),
                    blend_weight(dt_ns as int, self.speed as int),
                ),
                ..self
            }
        } else {
            self
        }
    }

    /// The session after the self-collision check: one game-over message for
    /// each body segment that ends the game. Nothing happens without a head.
    pub open spec fn after_self_collision(self) -> SessionView {
        match head_of(self.records) {
            Some(head) => SessionView {
                game_over: self.game_over + self.records.filter(
                    |r: EntityRecord| ends_game(head.transform.translation, r),
                ).len(),
                ..self
            },
            None => self,
        }
    }

    /// The session after every immunity countdown advanced by `dt_ns`
    /// nanoseconds.
    pub open spec fn after_immunity(self, dt_ns: u64) -> SessionView {
        SessionView { records: self.records.map_values(|r: EntityRecord| aged(r, dt_ns)), ..self }
    }

    /// One more segment can be added: the chain has a tail that is a live
    /// entity of the snake, and the score, the speed and the entity
    /// identifiers have room for it.
    pub open spec fn can_grow(self) -> bool {
        &&& self.chain.len() > 0
        &&& is_snake_entity(self.records, self.chain.last())
        &&& self.score < u32::MAX
        &&& self.speed + SPEED_INCREMENT <= u32::MAX
        &&& self.next_entity < u64::MAX
    }

    /// The session after one "snake collided" message was handled: a new
    /// segment at the tail's transform, immune for a while, appended to the
    /// chain; the speed raised and the score counted up. Nothing changes
    /// where the snake cannot grow.
    pub open spec fn grown(self) -> SessionView {
        if self.can_grow() {
            let tail = self.records[index_of(self.records, self.chain.last())];
            SessionView {
                records: self.records.push(
                    EntityRecord {
                        entity: self.next_entity,
                        kind: EntityKind::SnakeBody,
                        transform: tail.transform,
                        segment: fresh_immunity(),
                    },
                ),
                next_entity: (self.next_entity + 1) as u64,
                chain: self.chain.push(self.next_entity),
                speed: (self.speed + SPEED_INCREMENT) as u32,
                score: (self.score + 1) as u32,
                ..self
            }
        } else {
            self
        }
    }

    /// The session after `count` "snake collided" messages were handled one
    /// after the other.
    pub open spec fn grown_times(self, count: nat) -> SessionView
        decreases count,
    {
        if count == 0 {
            self
        } else {
            self.grown().grown_times((count - 1) as nat)
        }
    }

    /// The session after the growth system ran: while playing, the snake
    /// grows once for each pending "snake collided" message.
    pub open spec fn after_growth(self) -> SessionView {
        if self.state == GameState::InGame {
            self.grown_times(self.snake_collide)
        } else {
            self
        }
    }
}

/// Converts a pointer position from window coordinates to game coordinates.
pub fn to_game_coordinates(cursor: &Position, window: &WindowSize) -> (target: Position)
    ensures
        target == pointer_target(*cursor, *window),
{
    let x: i64 = cursor.x as i64 - (window.width / 2) as i64;
    let y: i64 = (window.height / 2) as i64 - cursor.y as i64;
    Position { x: confine(x), y: confine(y) }
}

/// Confines a wide coordinate to the world.
fn confine(v: i64) -> (r: i32)
    ensures
        r as int == clamp_coordinate(v as int),
{
    if v < i32::MIN as i64 {
        i32::MIN
    } else if v > i32::MAX as i64 {
        i32::MAX
    } else {
        v as i32
    }
}

impl GameSession {
    /// Creates the head at the origin and makes it the first entry of the
    /// chain.
    pub fn spawn_snake(&mut self)
        requires
            old(self).wf(),
        ensures
            final(self).wf(),
            final(self)@ == old(self)@.with_snake(),
    {
        let spawned = self.store.spawn(
            EntityKind::SnakeHead,
            Transform::identity(),
            SnakeSegment::disabled(),
        );
        match spawned {
            Some(entity) => {
                self.snake_segments.0.push(entity);
            },
            None => {},
        }
    }

    /// Follows the pointer: takes the pointer movements of this tick, in
    /// window coordinates, and keeps the last as the place to steer to.
    pub fn track_mouse_movements(&mut self, cursor_moved: &Vec<Position>, window: Option<WindowSize>)
        ensures
            final(self)@ == old(self)@.after_cursor_moves(cursor_moved@, window),
            final(self).store == old(self).store,
    {
        let size = match window {
            Some(size) => size,
            None => {
                return;
            },
        };
        let count = cursor_moved.len();
        if count == 0 {
            return;
        }
        self.mouse_position.0 = to_game_coordinates(&cursor_moved[count - 1], &size);
    }

    /// Moves the head for a tick of `dt_ns` nanoseconds.
    pub fn snake_head_movement(&mut self, dt_ns: u64)
        requires
            old(self).wf(),
        ensures
            final(self).wf(),
            final(self)@ == old(self)@.after_head_movement(dt_ns),
    {
        if self.state != GameState::InGame {
            return;
        }
        let head = match self.store.head() {
            Some(head) => head,
            None => {
                return;
            },
        };
        let position = head.transform.translation;
        if self.mouse_position.0.is_farther_than(&position, STEERING_DEADZONE) {
            self.last_direction.0 = Direction::between(&position, &self.mouse_position.0);
        }
        let direction = self.last_direction.0;
        let transform = Transform {
            translation: position.advance(&direction, self.snake_speed.0, dt_ns),
            rotation: direction.to_rotation(),
        };
        self.store.set_transform(head.entity, transform);
    }

    /// Lets every segment follow the one ahead of it for a tick of `dt_ns`
    /// nanoseconds, in chain order.
    pub fn move_snake_segments(&mut self, dt_ns: u64)
        requires
            old(self).wf(),
        ensures
            final(self).wf(),
            final(self)@ == old(self)@.after_follow(dt_ns),
    {
        if self.state != GameState::InGame {
            return;
        }
        let length = self.snake_segments.0.len();
        if length == 0 {
            return;
        }
        let weight = follow_weight(dt_ns, self.snake_speed.0);
        let mut previous = match self.store.transform(self.snake_segments.0[0]) {
            Some(transform) => transform,
            None => Transform::identity(),
        };
        let mut i: usize = 1;
        while i < length
            invariant
                1 <= i <= length,
                length == self.snake_segments.0@.len(),
                self.wf(),
                self@ == (SessionView { records: self.store@, ..old(self)@ }),
                followed(self.store@, self.snake_segments.0@, i as int, previous, weight as int)
                    == followed(
                    old(self).store@,
                    old(self).snake_segments.0@,
                    1,
                    lead_transform(old(self).store@, old(self).snake_segments.0@),
                    weight as int,
                ),
            decreases length - i,
        {
            let entity = self.snake_segments.0[i];
            match self.store.transform(entity) {
                Some(own) => {
                    self.store.set_transform(entity, own.blend_toward(&previous, weight));
                    previous = own;
                },
                None => {},
            }
            i += 1;
        }
    }

    /// Checks the head against the body and sends a game-over message for
    /// each segment that it ran into.
    pub fn check_snake_self_collision(&mut self)
        ensures
            final(self)@ == old(self)@.after_self_collision(),
            final(self).store == old(self).store,
    {
        let head = match self.store.head() {
            Some(head) => head,
            None => {
                return;
            },
        };
        let position = head.transform.translation;
        let ghost hit = |r: EntityRecord| ends_game(position, r);
        let records = self.store.records();
        let mut i: usize = 0;
        proof {
            assert(records@.take(0) =~= Seq::<EntityRecord>::empty());
            crate::entity::lemma_filter_empty(hit);
        }
        while i < records.len()
            invariant
                i <= records.len(),
                records@ == old(self).store@,
                hit == |r: EntityRecord| ends_game(position, r),
                self.events.game_over@.len() == old(self).events.game_over@.len()
                    + records@.take(i as int).filter(hit).len(),
                self.store == old(self).store,
                self@ == (SessionView {
                    game_over: self.events.game_over@.len(),
                    ..old(self)@
                }),
            decreases records.len() - i,
        {
            let record = records[i];
            proof {
                crate::entity::lemma_filter_step(records@, hit, i as int);
            }
            if record.kind == EntityKind::SnakeBody && !record.segment.ignore_collision
                && position.is_closer_than(
                &record.transform.translation,
                SNAKE_RADIUS - SELF_COLLISION_MARGIN,
            ) {
                self.events.game_over.push(crate::event::GameOverEvent);
            }
            i += 1;
        }
        proof {
            assert(records@.take(i as int) =~= records@);
        }
    }

    /// Advances the immunity countdown of every immune entity by `dt_ns`
    /// nanoseconds and ends the immunity of those whose countdown completed.
    pub fn update_segment_collision_flag(&mut self, dt_ns: u64)
        requires
            old(self).wf(),
        ensures
            final(self).wf(),
            final(self)@ == old(self)@.after_immunity(dt_ns),
    {
        let records = self.store.records();
        let ghost age = |r: EntityRecord| aged(r, dt_ns);
        let mut updated: Vec<EntityRecord> = Vec::new();
        let mut i: usize = 0;
        while i < records.len()
            invariant
                i <= records.len(),
                records@ == self.store@,
                age == |r: EntityRecord| aged(r, dt_ns),
                updated@ == records@.take(i as int).map_values(age),
            decreases records.len() - i,
        {
            let record = records[i];
            let mut segment = record.segment;
            if record.kind != EntityKind::Coin && segment.ignore_collision {
                let finished = segment.collision_timer.tick(dt_ns);
                segment.ignore_collision = !finished;
            }
            updated.push(EntityRecord { segment, ..record });
            proof {
                assert(records@.take(i + 1).map_values(age) =~= records@.take(i as int).map_values(
                    age,
                ).push(age(records@[i as int])));
            }
            i += 1;
        }
        proof {
            assert(records@.take(i as int) =~= records@);
            assert forall|k: int| 0 <= k < updated@.len() implies (#[trigger] updated@[k]).entity
                == records@[k].entity by {}
        }
        self.store.replace_records(updated);
    }

    /// Adds one segment behind the tail, if the snake can grow.
    pub fn grow(&mut self) -> (grew: bool)
        requires
            old(self).wf(),
        ensures
            final(self).wf(),
            grew == old(self)@.can_grow(),
            final(self)@ == old(self)@.grown(),
    {
        let length = self.snake_segments.0.len();
        if length == 0 {
            return false;
        }
        let tail = self.snake_segments.0[length - 1];
        let record = match self.store.get(tail) {
            Some(record) => record,
            None => {
                return false;
            },
        };
        if record.kind == EntityKind::Coin {
            return false;
        }
        if self.score.0 == u32::MAX || self.snake_speed.0 > u32::MAX - SPEED_INCREMENT {
            return false;
        }
        let spawned = self.store.spawn(
            EntityKind::SnakeBody,
            record.transform,
            SnakeSegment {
                ignore_collision: true,
                collision_timer: Countdown::from_seconds(IMMUNITY_SECONDS),
            },
        );
        match spawned {
            Some(entity) => {
                self.snake_segments.0.push(entity);
                self.snake_speed.0 = self.snake_speed.0 + SPEED_INCREMENT;
                self.score.0 = self.score.0 + 1;
                true
            },
            None => false,
        }
    }

    /// Lets the snake grow once for each coin that the head touched this
    /// tick. Does nothing unless the game is being played.
    pub fn add_snake_segment(&mut self)
        requires
            old(self).wf(),
        ensures
            final(self).wf(),
            final(self)@ == old(self)@.after_growth(),
    {
        if self.state != GameState::InGame {
            return;
        }
        let pending = self.events.snake_collide.len();
        let mut handled: usize = 0;
        while handled < pending
            invariant
                handled <= pending,
                self.wf(),
                pending == old(self)@.snake_collide,
                self@.grown_times((pending - handled) as nat) == old(self)@.grown_times(
                    pending as nat,
                ),
            decreases pending - handled,
        {
            self.grow();
            handled += 1;
        }
    }
}

} // verus!
