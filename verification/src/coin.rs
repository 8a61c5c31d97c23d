//! Coins: where and when they appear, and when the head collects them.

use crate::entity::{head_of, Entity, EntityKind, EntityRecord, SnakeSegment};
use crate::event::{CoinCollectedEvent, SnakeCollideEvent};
use crate::game_state::GameState;
use crate::geometry::{Direction, Position, Transform};
use crate::session::{GameSession, SessionView};
use crate::snake::SNAKE_RADIUS;
use crate::timer::Countdown;
use rand::Rng;
use vstd::prelude::*;

verus! {

/// Radius within which a coin counts as touched, in position units.
pub const COIN_RADIUS: i32 = 10_000;

/// Distance that coins keep from the edges of the window, in position
/// units.
pub const SPAWN_MARGIN: i32 = 30_000;

/// Seconds between two coins.
pub const COIN_INTERVAL_SECONDS: u32 = 1;

/// Time to the next coin.
#[derive(Clone, Copy, PartialEq, Eq, Debug, Structural)]
pub struct CoinTimer(pub Countdown);

/// Width and height of the window, in position units.
#[derive(Clone, Copy, PartialEq, Eq, Debug, Structural)]
pub struct WindowSize {
    pub width: u32,
    pub height: u32,
}

/// Lowest coordinate at which a coin may appear along an axis on which the
/// window measures `extent`: the first that is no nearer than the margin to
/// the edge at minus half the extent.
pub open spec fn spawn_low(extent: u32) -> int {
    -(extent as int / 2) + SPAWN_MARGIN
}

/// The bound below which coins appear along an axis on which the window
/// measures `extent`: the first coordinate that is not farther than the
/// margin from the edge at half the extent. Half of an odd extent lies
/// between two coordinates, and the lower of them is still inside.
pub open spec fn spawn_high(extent: u32) -> int {
    (extent as int + 1) / 2 - SPAWN_MARGIN
}

/// The window leaves room for a coin inside its margins.
pub open spec fn has_spawn_area(window: WindowSize) -> bool {
    spawn_low(window.width) < spawn_high(window.width) && spawn_low(window.height) < spawn_high(
        window.height,
    )
}

/// `at` lies inside the margins of the window.
pub open spec fn in_spawn_area(window: WindowSize, at: Position) -> bool {
    &&& spawn_low(window.width) <= at.x < spawn_high(window.width)
    &&& spawn_low(window.height) <= at.y < spawn_high(window.height)
}

/// A coin that a head at `head` collects: closer than the two radii
/// together.
pub open spec fn collects(head: Position, record: EntityRecord) -> bool {
    record.kind == EntityKind::Coin && head.closer_than(
        record.transform.translation,
        SNAKE_RADIUS + COIN_RADIUS,
    )
}

impl SessionView {
    /// The session with a coin spawned at `at`. Nothing is spawned once the
    /// entity identifiers are used up.
    pub open spec fn with_coin(self, at: Position) -> SessionView {
        if self.next_entity == u64::MAX {
            self
        } else {
            SessionView {
                records: self.records.push(
                    EntityRecord {
                        entity: self.next_entity,
                        kind: EntityKind::Coin,
                        transform: Transform { translation: at, rotation: Direction::east_spec() },
                        segment: SnakeSegment::disabled_spec(),
                    },
                ),
                next_entity: (self.next_entity + 1) as u64,
                ..self
            }
        }
    }

    /// The session after the coin timer ran for `dt_ns` nanoseconds. The
    /// timer runs only while the game is being played.
    pub open spec fn after_coin_timer(self, dt_ns: u64) -> SessionView {
        if self.state == GameState::InGame {
            SessionView { coin_timer: self.coin_timer.ticked(dt_ns as int), ..self }
        } else {
            self
        }
    }

    /// A coin is due on a tick of `dt_ns` nanoseconds: the game is being
    /// played, the coin timer completes, and there is a window with room for
    /// a coin.
    pub open spec fn coin_due(self, dt_ns: u64, window: Option<WindowSize>) -> bool {
        &&& self.state == GameState::InGame
        &&& self.coin_timer.completes(dt_ns as int)
        &&& window is Some
        &&& has_spawn_area(window->0)
    }

    /// The session after the coin spawner ran, where `drawn` is the place
    /// that was drawn for a coin that was due.
    pub open spec fn after_coin_spawn(self, dt_ns: u64, drawn: Option<Position>) -> SessionView {
        match drawn {
            Some(at) => self.after_coin_timer(dt_ns).with_coin(at),
            None => self.after_coin_timer(dt_ns),
        }
    }

    /// The session after the pickup check: every coin that the head touches
    /// is destroyed, and for each of them one "snake collided" and one "coin
    /// collected" message is sent. Nothing happens without a head.
    pub open spec fn after_pickup(self) -> SessionView {
        match head_of(self.records) {
            Some(head) => {
                let left = self.records.filter(
                    |r: EntityRecord| !collects(head.transform.translation, r),
                );
                let collected = (self.records.len() - left.len()) as nat;
                SessionView {
                    records: left,
                    snake_collide: self.snake_collide + collected,
                    coin_collected: self.coin_collected + collected,
                    ..self
                }
            },
            None => self,
        }
    }
}

impl Default for CoinTimer {
    /// A coin appears about once a second.
    fn default() -> (timer: CoinTimer)
        ensures
            timer.0 == Countdown::of_seconds(COIN_INTERVAL_SECONDS),
    {
        CoinTimer(Countdown::from_seconds(COIN_INTERVAL_SECONDS))
    }
}

/// The range of coordinates at which a coin may appear along an axis on
/// which the window measures `extent`: from the first value up to, not
/// including, the second.
pub fn spawn_range(extent: u32) -> (range: (i32, i32))
    ensures
        range.0 as int == spawn_low(extent),
        range.1 as int == spawn_high(extent),
{
    let half: i32 = (extent / 2) as i32;
    let half_up: i64 = (extent as i64 + 1) / 2;
    (SPAWN_MARGIN - half, (half_up - SPAWN_MARGIN as i64) as i32)
}

/// Draws a coordinate from `low` up to, not including, `high` with
/// `rand::Rng::gen_range` on the thread's generator. Whatever is drawn lies
/// in that range; the call does not accept an empty one.
#[verifier::external_body]
fn random_coordinate(low: i32, high: i32) -> (drawn: i32)
    requires
        low < high,
    ensures
        low <= drawn < high,
{
    rand::thread_rng().gen_range(low..high)
}

impl GameSession {
    /// Spawns a coin at `at`.
    pub fn place_coin(&mut self, at: Position) -> (coin: Option<Entity>)
        requires
            old(self).wf(),
        ensures
            final(self).wf(),
            final(self)@ == old(self)@.with_coin(at),
            coin is Some == (old(self)@.next_entity < u64::MAX),
            coin is Some ==> coin->0 == old(self)@.next_entity,
    {
        self.store.spawn(
            EntityKind::Coin,
            Transform { translation: at, rotation: Direction::east() },
            SnakeSegment::disabled(),
        )
    }

    /// Runs the coin timer for a tick of `dt_ns` nanoseconds and, when a coin
    /// is due, spawns one at a random place inside the margins of the
    /// window. Returns the place that was drawn.
    pub fn spawn_coin(&mut self, dt_ns: u64, window: Option<WindowSize>) -> (drawn: Option<
        Position,
    >)
        requires
            old(self).wf(),
        ensures
            final(self).wf(),
            drawn is Some == old(self)@.coin_due(dt_ns, window),
            drawn is Some ==> in_spawn_area(window->0, drawn->0),
            final(self)@ == old(self)@.after_coin_spawn(dt_ns, drawn),
    {
        if self.state != GameState::InGame {
            return None;
        }
        let finished = self.coin_timer.0.tick(dt_ns);
        if !finished {
            return None;
        }
        let size = match window {
            Some(size) => size,
            None => {
                return None;
            },
        };
        let (x_low, x_high) = spawn_range(size.width);
        let (y_low, y_high) = spawn_range(size.height);
        if x_low >= x_high || y_low >= y_high {
            return None;
        }
        let at = Position { x: random_coordinate(x_low, x_high), y: random_coordinate(y_low, y_high) };
        self.place_coin(at);
        Some(at)
    }

    /// Checks the head against every coin, destroys the coins that it
    /// touches and sends the messages for each.
    pub fn snake_collide_event_writer(&mut self)
        requires
            old(self).wf(),
        ensures
            final(self).wf(),
            final(self)@ == old(self)@.after_pickup(),
    {
        let head = match self.store.head() {
            Some(head) => head,
            None => {
                return;
            },
        };
        let position = head.transform.translation;
        let ghost stays = |r: EntityRecord| !collects(position, r);
        let records = self.store.records();
        let mut left: Vec<EntityRecord> = Vec::new();
        let mut i: usize = 0;
        proof {
            assert(records@.take(0) =~= Seq::<EntityRecord>::empty());
            crate::entity::lemma_filter_empty(stays);
        }
        while i < records.len()
            invariant
                i <= records.len(),
                records@ == old(self).store@,
                stays == |r: EntityRecord| !collects(position, r),
                left@ == records@.take(i as int).filter(stays),
                left@.len() <= i,
                self.store == old(self).store,
                self@ == (SessionView {
                    snake_collide: old(self)@.snake_collide + (i - left@.len()) as nat,
                    coin_collected: old(self)@.coin_collected + (i - left@.len()) as nat,
                    ..old(self)@
                }),
            decreases records.len() - i,
        {
            let record = records[i];
            proof {
                crate::entity::lemma_filter_step(records@, stays, i as int);
            }
            if record.kind == EntityKind::Coin && position.is_closer_than(
                &record.transform.translation,
                SNAKE_RADIUS + COIN_RADIUS,
            ) {
                self.events.snake_collide.push(SnakeCollideEvent);
                self.events.coin_collected.push(CoinCollectedEvent);
            } else {
                left.push(record);
            }
            i += 1;
        }
        proof {
            assert(records@.take(i as int) =~= records@);
            crate::entity::lemma_filter_ascending(
                self.store@,
                stays,
                self.store.next_entity() as int,
            );
        }
        self.store.replace_records(left);
    }
}

} // verus!
