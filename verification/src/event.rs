//! The per-tick message queues between the collision detector and the
//! systems that react to it. Messages are produced during a tick, read by
//! every consumer during the same tick, and cleared at the tick boundary.

use vstd::prelude::*;

verus! {

/// The head touched a coin: the snake is to grow.
#[derive(Clone, Copy, PartialEq, Eq, Debug, Structural)]
pub struct SnakeCollideEvent;

/// A coin was collected.
#[derive(Clone, Copy, PartialEq, Eq, Debug, Structural)]
pub struct CoinCollectedEvent;

/// The head ran into the body.
#[derive(Clone, Copy, PartialEq, Eq, Debug, Structural)]
pub struct GameOverEvent;

/// The three queues of one tick.
#[derive(Clone, PartialEq, Eq, Debug)]
pub struct Events {
    pub snake_collide: Vec<SnakeCollideEvent>,
    pub coin_collected: Vec<CoinCollectedEvent>,
    pub game_over: Vec<GameOverEvent>,
}

impl Events {
    /// Three empty queues.
    pub fn new() -> (events: Events)
        ensures
            events.snake_collide@.len() == 0,
            events.coin_collected@.len() == 0,
            events.game_over@.len() == 0,
    {
        Events { snake_collide: Vec::new(), coin_collected: Vec::new(), game_over: Vec::new() }
    }

    /// Empties the queues at the tick boundary.
    pub fn clear(&mut self)
        ensures
            final(self).snake_collide@.len() == 0,
            final(self).coin_collected@.len() == 0,
            final(self).game_over@.len() == 0,
    {
        self.snake_collide.clear();
        self.coin_collected.clear();
        self.game_over.clear();
    }
}

} // verus!
