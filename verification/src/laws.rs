//! Laws of the simulation: what holds of every session, proved from the
//! definitions that the contracts of the systems use.

use crate::coin::{collects, WindowSize};
use crate::entity::{
    has_entity, head_of, ids_ascending, index_of, is_first_head, lemma_filter_keeps_all,
    lemma_filter_keeps_none, lemma_first_head_unique, lemma_head_is_first, lemma_index_unique,
    transform_of, with_transform, Entity, EntityKind, EntityRecord, SnakeSegment,
};
use crate::game_state::GameState;
use crate::geometry::{
    bisector, blend_weight, normalized, travel, turned, Direction, Position, Transform, BLEND_ONE,
};
use crate::session::SessionView;
use crate::snake::{
    aged, ends_game, followed, fresh_immunity, head_moved, immunity_aged, lead_transform, steered,
    BASE_SPEED, IMMUNITY_SECONDS, SPEED_INCREMENT,
};
use crate::timer::NANOS_PER_SECOND;
use vstd::prelude::*;

verus! {

/// The time that a series of ticks took, in nanoseconds.
pub open spec fn total_elapsed(deltas: Seq<u64>) -> int
    decreases deltas.len(),
{
    if deltas.len() == 0 {
        0
    } else {
        total_elapsed(deltas.drop_last()) + deltas.last()
    }
}

/// An immunity state after a series of ticks.
pub open spec fn immunity_after(segment: SnakeSegment, deltas: Seq<u64>) -> SnakeSegment
    decreases deltas.len(),
{
    if deltas.len() == 0 {
        segment
    } else {
        immunity_aged(immunity_after(segment, deltas.drop_last()), deltas.last())
    }
}

/// A new segment is immune exactly as long as the ticks since it was spawned
/// add up to less than the immunity window.
pub proof fn law_immunity_window(deltas: Seq<u64>)
    ensures
        immunity_after(fresh_immunity(), deltas).ignore_collision == (total_elapsed(deltas)
            < IMMUNITY_SECONDS as int * NANOS_PER_SECOND as int),
        immunity_after(fresh_immunity(), deltas).ignore_collision ==> immunity_after(
            fresh_immunity(),
            deltas,
        ).collision_timer.elapsed_ns as int == total_elapsed(deltas),
        immunity_after(fresh_immunity(), deltas).collision_timer.duration_ns as int
            == IMMUNITY_SECONDS as int * NANOS_PER_SECOND as int,
        total_elapsed(deltas) >= 0,
    decreases deltas.len(),
{
    if deltas.len() > 0 {
        law_immunity_window(deltas.drop_last());
    }
}

/// Immunity that has ended never comes back, however the countdown would
/// have gone on.
pub proof fn law_immunity_ends_for_good(segment: SnakeSegment, deltas: Seq<u64>)
    requires
        !segment.ignore_collision,
    ensures
        immunity_after(segment, deltas) == segment,
    decreases deltas.len(),
{
    if deltas.len() > 0 {
        law_immunity_ends_for_good(segment, deltas.drop_last());
    }
}

/// Pausing and resuming a running game brings back the session as it was.
pub proof fn law_pause_round_trip(v: SessionView)
    requires
        v.state == GameState::InGame,
    ensures
        v.after_pause_input(true).state == GameState::Paused,
        v.after_pause_input(true).after_pause_input(true) == v,
{
}

/// Outside play nothing moves, no coin appears and the snake does not grow.
pub proof fn law_no_motion_outside_play(v: SessionView, dt_ns: u64, window: Option<WindowSize>)
    requires
        v.state != GameState::InGame,
    ensures
        v.after_head_movement(dt_ns) == v,
        v.after_follow(dt_ns) == v,
        !v.coin_due(dt_ns, window),
        v.after_coin_spawn(dt_ns, None) == v,
        v.after_growth() == v,
{
}

/// The reset action done twice is the reset action done once.
pub proof fn law_reset_idempotent(v: SessionView)
    ensures
        v.reset().reset() == v.reset(),
{
    assert(v.reset().reset().chain =~= v.reset().chain);
}

/// The reset action on a run that has just begun changes nothing: a game
/// that is being played at base speed with the head alone in the chain,
/// the reset control hidden and the game-over sound armed stays as it is.
pub proof fn law_reset_of_fresh_run(v: SessionView)
    requires
        v.state == GameState::InGame,
        v.chain.len() == 1,
        v.speed == BASE_SPEED,
        !v.audio_played,
        !v.reset_visible,
    ensures
        v.reset() == v,
{
}

/// The reset action leaves a running game with a chain of one in play with
/// that chain, at base speed, and touches neither the score nor an entity.
pub proof fn law_reset_keeps_head(v: SessionView)
    requires
        v.chain.len() == 1,
    ensures
        v.reset().state == GameState::InGame,
        v.reset().chain == v.chain,
        v.reset().speed == BASE_SPEED,
        v.reset().score == v.score,
        v.reset().records == v.records,
{
}

/// A snake that can grow gains exactly one segment for one message: the
/// chain is one longer, the speed is up by the increment, the score by one,
/// and the new segment stands where the tail stands, immune.
pub proof fn law_growth_adds_one(v: SessionView)
    requires
        v.can_grow(),
    ensures
        v.grown().chain.len() == v.chain.len() + 1,
        v.grown().chain.last() == v.next_entity,
        v.grown().speed == v.speed + SPEED_INCREMENT,
        v.grown().score == v.score + 1,
        v.grown().records.len() == v.records.len() + 1,
        v.grown().records.last().kind == EntityKind::SnakeBody,
        v.grown().records.last().segment == fresh_immunity(),
        Some(v.grown().records.last().transform) == transform_of(v.records, v.chain.last()),
{
}

/// Giving an entity another transform changes that entity's transform and
/// nothing else: the same entities are live, in the same order, and every
/// other one is where it was.
pub proof fn law_with_transform(
    records: Seq<EntityRecord>,
    bound: int,
    entity: Entity,
    transform: Transform,
    other: Entity,
)
    requires
        ids_ascending(records, bound),
    ensures
        ids_ascending(with_transform(records, entity, transform), bound),
        has_entity(with_transform(records, entity, transform), other) == has_entity(records, other),
        transform_of(with_transform(records, entity, transform), other) == if other == entity
            && has_entity(records, entity) {
            Some(transform)
        } else {
            transform_of(records, other)
        },
        head_of(with_transform(records, entity, transform)) is Some == head_of(records) is Some,
        head_of(records) is Some ==> head_of(with_transform(records, entity, transform))->0.entity
            == head_of(records)->0.entity,
{
    let after = with_transform(records, entity, transform);
    assert forall|i: int| 0 <= i < records.len() implies (#[trigger] after[i]).entity
        == records[i].entity && after[i].kind == records[i].kind by {}
    if has_entity(records, other) {
        let i = index_of(records, other);
        assert(after[i].entity == other);
        lemma_index_unique(after, bound, other, i);
    }
    if has_entity(after, other) {
        let i = index_of(after, other);
        assert(records[i].entity == other);
    }
    if head_of(records) is Some {
        let h = lemma_head_is_first(records);
        assert(is_first_head(after, h)) by {
            assert(after[h].kind == records[h].kind);
            assert forall|k: int| 0 <= k < h implies (#[trigger] after[k]).kind
                != EntityKind::SnakeHead by {
                assert(records[k].kind != EntityKind::SnakeHead);
            }
        }
        lemma_first_head_unique(after, h);
        lemma_first_head_unique(records, h);
    }
    if head_of(after) is Some {
        let h = lemma_head_is_first(after);
        assert(records[h].kind == EntityKind::SnakeHead);
    }
}

/// While the game is being played the head ends a tick where it began plus
/// its heading times its speed times the time that passed, facing along its
/// heading. The heading is the one toward the pointer, or the last one
/// where the pointer rests on the head. Where the sum leaves the world the
/// head stops at the edge.
pub proof fn law_head_advances(v: SessionView, dt_ns: u64)
    requires
        v.state == GameState::InGame,
        head_of(v.records) is Some,
        ids_ascending(v.records, v.next_entity as int),
    ensures
        ({
            let before = head_of(v.records)->0;
            let after = v.after_head_movement(dt_ns);
            let head = head_of(after.records);
            let from = before.transform.translation;
            let heading = after.last_direction;
            let dx = travel(heading.x as int, v.speed as int, dt_ns as int);
            let dy = travel(heading.y as int, v.speed as int, dt_ns as int);
            &&& head is Some
            &&& head->0.entity == before.entity
            &&& heading == steered(from, v.mouse, v.last_direction)
            &&& head->0.transform == head_moved(before.transform, heading, v.speed, dt_ns)
            &&& head->0.transform.translation == from.advanced(
                heading,
                v.speed as int,
                dt_ns as int,
            )
            &&& i32::MIN <= from.x + dx <= i32::MAX ==> head->0.transform.translation.x == from.x
                + dx
            &&& i32::MIN <= from.y + dy <= i32::MAX ==> head->0.transform.translation.y == from.y
                + dy
        }),
{
    let before = head_of(v.records)->0;
    let heading = steered(before.transform.translation, v.mouse, v.last_direction);
    let moved = head_moved(before.transform, heading, v.speed, dt_ns);
    let h = lemma_head_is_first(v.records);
    lemma_index_unique(v.records, v.next_entity as int, before.entity, h);
    law_with_transform(v.records, v.next_entity as int, before.entity, moved, before.entity);
    let after = with_transform(v.records, before.entity, moved);
    assert(is_first_head(after, h)) by {
        assert forall|k: int| 0 <= k < h implies (#[trigger] after[k]).kind
            != EntityKind::SnakeHead by {
            assert(v.records[k].kind != EntityKind::SnakeHead);
        }
    }
    lemma_first_head_unique(after, h);
}

/// Every entry of `chain` names a live entity, and no entity is named
/// twice.
pub open spec fn chain_is_sound(records: Seq<EntityRecord>, chain: Seq<Entity>) -> bool {
    &&& forall|i: int| 0 <= i < chain.len() ==> has_entity(records, #[trigger] chain[i])
    &&& forall|i: int, j: int| 0 <= i < j < chain.len() ==> #[trigger] chain[i] != #[trigger] chain[j]
}

/// `entity` is named by `chain` at `from` or later.
pub open spec fn follows_from(chain: Seq<Entity>, from: int, entity: Entity) -> bool {
    exists|j: int| from <= j < chain.len() && #[trigger] chain[j] == entity
}

/// The transform that the entity named at `i` has in `records`.
pub open spec fn pose(records: Seq<EntityRecord>, chain: Seq<Entity>, i: int) -> Transform {
    transform_of(records, chain[i])->0
}

/// The follow pass over a sound chain is a chained lag: the entity at
/// `from` is blended toward the target, every later one toward the
/// transform that the one ahead of it had before the pass, and every other
/// entity stays where it is. No entity is spawned or destroyed.
pub proof fn law_follow_pass(
    records: Seq<EntityRecord>,
    bound: int,
    chain: Seq<Entity>,
    from: int,
    target: Transform,
    weight: int,
)
    requires
        ids_ascending(records, bound),
        chain_is_sound(records, chain),
        0 <= from <= chain.len(),
    ensures
        ids_ascending(followed(records, chain, from, target, weight), bound),
        forall|e: Entity| #[trigger]
            has_entity(followed(records, chain, from, target, weight), e) == has_entity(records, e),
        forall|e: Entity|
            !follows_from(chain, from, e) ==> #[trigger] transform_of(
                followed(records, chain, from, target, weight),
                e,
            ) == transform_of(records, e),
        forall|i: int|
            from <= i < chain.len() ==> transform_of(
                followed(records, chain, from, target, weight),
                #[trigger] chain[i],
            ) == Some(
                pose(records, chain, i).blended(
                    if i == from {
                        target
                    } else {
                        pose(records, chain, i - 1)
                    },
                    weight,
                ),
            ),
    decreases chain.len() - from,
{
    if from < chain.len() {
        let current = chain[from];
        assert(has_entity(records, current));
        let own = transform_of(records, current)->0;
        let step = with_transform(records, current, own.blended(target, weight));
        let result = followed(records, chain, from, target, weight);
        assert(result == followed(step, chain, from + 1, own, weight));
        assert forall|e: Entity| #[trigger] has_entity(step, e) == has_entity(records, e) by {
            law_with_transform(records, bound, current, own.blended(target, weight), e);
        }
        law_with_transform(records, bound, current, own.blended(target, weight), current);
        assert forall|i: int| from < i < chain.len() implies pose(step, chain, i) == pose(
            records,
            chain,
            i,
        ) by {
            law_with_transform(records, bound, current, own.blended(target, weight), chain[i]);
        }
        law_follow_pass(step, bound, chain, from + 1, own, weight);
        assert(!follows_from(chain, from + 1, current)) by {
            if follows_from(chain, from + 1, current) {
                let j = choose|j: int| from + 1 <= j < chain.len() && #[trigger] chain[j] == current;
                assert(chain[from] != chain[j]);
            }
        }
        assert forall|e: Entity| !follows_from(chain, from, e) implies #[trigger] transform_of(
            result,
            e,
        ) == transform_of(records, e) by {
            assert(!follows_from(chain, from + 1, e)) by {
                if follows_from(chain, from + 1, e) {
                    let j = choose|j: int| from + 1 <= j < chain.len() && #[trigger] chain[j] == e;
                    assert(from <= j < chain.len() && chain[j] == e);
                }
            }
            assert(e != current) by {
                if e == current {
                    assert(chain[from] == e);
                }
            }
            law_with_transform(records, bound, current, own.blended(target, weight), e);
        }
        assert forall|i: int| from <= i < chain.len() implies transform_of(
            result,
            #[trigger] chain[i],
        ) == Some(
            pose(records, chain, i).blended(
                if i == from {
                    target
                } else {
                    pose(records, chain, i - 1)
                },
                weight,
            ),
        ) by {
            if i == from {
                assert(transform_of(result, current) == transform_of(step, current));
            } else if i == from + 1 {
                assert(pose(step, chain, i) == pose(records, chain, i));
            } else {
                assert(pose(step, chain, i) == pose(records, chain, i));
                assert(pose(step, chain, i - 1) == pose(records, chain, i - 1));
            }
        }
    }
}

/// While the game is being played, with a chain that is sound, the follow
/// pass of a tick blends every segment toward the transform that its
/// predecessor had when the pass began, leaves the first entity of the
/// chain and every entity outside the chain where it is, and spawns or
/// destroys nothing.
pub proof fn law_follow_is_chained_lag(v: SessionView, dt_ns: u64)
    requires
        v.state == GameState::InGame,
        ids_ascending(v.records, v.next_entity as int),
        chain_is_sound(v.records, v.chain),
        v.chain.len() > 0,
    ensures
        ids_ascending(v.after_follow(dt_ns).records, v.next_entity as int),
        forall|e: Entity| #[trigger]
            has_entity(v.after_follow(dt_ns).records, e) == has_entity(v.records, e),
        forall|e: Entity|
            !follows_from(v.chain, 1, e) ==> #[trigger] transform_of(
                v.after_follow(dt_ns).records,
                e,
            ) == transform_of(v.records, e),
        forall|i: int|
            1 <= i < v.chain.len() ==> transform_of(
                v.after_follow(dt_ns).records,
                #[trigger] v.chain[i],
            ) == Some(
                pose(v.records, v.chain, i).blended(
                    pose(v.records, v.chain, i - 1),
                    blend_weight(dt_ns as int, v.speed as int),
                ),
            ),
{
    assert(has_entity(v.records, v.chain[0]));
    law_follow_pass(
        v.records,
        v.next_entity as int,
        v.chain,
        1,
        lead_transform(v.records, v.chain),
        blend_weight(dt_ns as int, v.speed as int),
    );
}

/// A tick outside play, with nothing pressed, empty queues, no coin in
/// reach of the head and no segment that ends the game, moves nothing and
/// spawns and destroys nothing: the state, the chain, the score and the
/// speed stay, and every entity keeps its place. Only the immunity
/// countdowns go on.
pub proof fn law_idle_tick_moves_nothing(
    v: SessionView,
    dt_ns: u64,
    moves: Seq<Position>,
    window: Option<WindowSize>,
)
    requires
        v.state != GameState::InGame,
        v.snake_collide == 0 && v.coin_collected == 0 && v.game_over == 0,
        head_of(v.records) is Some ==> forall|i: int|
            0 <= i < v.records.len() ==> !collects(
                head_of(v.records)->0.transform.translation,
                #[trigger] v.records[i],
            ) && !ends_game(head_of(v.records)->0.transform.translation, v.records[i]),
    ensures
        ({
            let after = v.after_detection(dt_ns, moves, window, false, false, None).after_reactions();
            &&& !v.coin_due_in_tick(dt_ns, moves, window, false, false)
            &&& after == SessionView {
                mouse: v.after_cursor_moves(moves, window).mouse,
                records: v.records.map_values(|r: EntityRecord| aged(r, dt_ns)),
                ..v
            }
            &&& after.records.len() == v.records.len()
            &&& forall|i: int|
                0 <= i < v.records.len() ==> (#[trigger] after.records[i]).entity
                    == v.records[i].entity && after.records[i].kind == v.records[i].kind
                    && after.records[i].transform == v.records[i].transform
        }),
{
    let pointed = v.after_cursor_moves(moves, window);
    let spawned = pointed.after_pause_input(false).after_reset_input(false).after_head_movement(
        dt_ns,
    ).after_follow(dt_ns).after_coin_spawn(dt_ns, None);
    assert(spawned == pointed);
    if head_of(v.records) is Some {
        let head = head_of(v.records)->0.transform.translation;
        lemma_filter_keeps_all(v.records, |r: EntityRecord| !collects(head, r));
        lemma_filter_keeps_none(v.records, |r: EntityRecord| ends_game(head, r));
    }
    let picked = spawned.after_pickup();
    assert(picked == pointed);
    let checked = picked.after_self_collision();
    assert(checked == pointed);
}

/// A head that is in reach of a coin collects it, and none that is out of
/// reach: reach is a distance of less than twenty game units.
pub proof fn law_pickup_reach(head: Position, coin: EntityRecord)
    requires
        coin.kind == EntityKind::Coin,
    ensures
        collects(head, coin) == (head.distance_squared(coin.transform.translation) < 20_000
            * 20_000),
{
}

/// A segment ends the game exactly where it is a body segment that is not
/// immune and lies at a distance of less than three game units from the
/// head.
pub proof fn law_self_collision_reach(head: Position, segment: EntityRecord)
    ensures
        ends_game(head, segment) == (segment.kind == EntityKind::SnakeBody
            && !segment.segment.ignore_collision && head.distance_squared(
            segment.transform.translation,
        ) < 3_000 * 3_000),
{
}

/// The spherical blend at its marks: no weight leaves a rotation as it is,
/// the full weight gives the target, a rotation blended toward itself does
/// not turn, and half the weight gives the rotation half way between the
/// two.
pub proof fn law_rotation_blend_marks(from: Direction, to: Direction, weight: int)
    ensures
        from.blended(to, 0) == from,
        from.blended(to, BLEND_ONE as int) == to,
        from.blended(from, weight) == from,
        from != to ==> from.blended(to, BLEND_ONE as int / 2) == ({
            let half = bisector(from.refined(), to.refined());
            normalized(half.x as int, half.y as int)
        }),
{
    reveal_with_fuel(turned, 2);
}

/// The sum of two vectors of one length points half way between them along
/// the shorter arc: it makes the same angle with both, as its inner and
/// outer products with them show, and that angle is no more than a quarter
/// turn.
pub proof fn law_sum_is_half_way(a: Direction, b: Direction)
    requires
        a.x * a.x + a.y * a.y == b.x * b.x + b.y * b.y,
    ensures
        (a.x + b.x) * a.x + (a.y + b.y) * a.y == (a.x + b.x) * b.x + (a.y + b.y) * b.y,
        a.x * (a.y + b.y) - a.y * (a.x + b.x) == (a.x + b.x) * b.y - (a.y + b.y) * b.x,
        (a.x + b.x) * a.x + (a.y + b.y) * a.y >= 0,
{
    let ax = a.x as int;
    let ay = a.y as int;
    let bx = b.x as int;
    let by = b.y as int;
    assert((ax + bx) * ax + (ay + by) * ay == (ax + bx) * bx + (ay + by) * by) by (nonlinear_arith)
        requires
            ax * ax + ay * ay == bx * bx + by * by,
    ;
    assert(ax * (ay + by) - ay * (ax + bx) == (ax + bx) * by - (ay + by) * bx) by (nonlinear_arith);
    assert(2 * ((ax + bx) * ax + (ay + by) * ay) == (ax + bx) * (ax + bx) + (ay + by) * (ay + by))
        by (nonlinear_arith)
        requires
            ax * ax + ay * ay == bx * bx + by * by,
    ;
    assert((ax + bx) * (ax + bx) + (ay + by) * (ay + by) >= 0) by (nonlinear_arith);
}

} // verus!
