//! The game state machine and the score: pause, game over and reset.

use crate::entity::{EntityKind, EntityRecord};
use crate::session::{GameSession, SessionView};
use crate::snake::BASE_SPEED;
use vstd::prelude::*;

verus! {

/// The state of the game. Exactly one holds at any time.
#[derive(Clone, Copy, PartialEq, Eq, Debug, Hash, Structural)]
pub enum GameState {
    InGame,
    Paused,
    GameOver,
}

/// Coins collected in the current run.
#[derive(Clone, Copy, PartialEq, Eq, Debug, Structural)]
pub struct Score(pub u32);

impl Default for GameState {
    /// A game starts out playing.
    fn default() -> (state: GameState)
        ensures
            state == GameState::InGame,
    {
        GameState::InGame
    }
}

impl GameState {
    /// The state after the pause action: playing and paused swap, and a game
    /// that is over stays over.
    pub open spec fn toggled(self) -> GameState {
        match self {
            GameState::InGame => GameState::Paused,
            GameState::Paused => GameState::InGame,
            GameState::GameOver => GameState::GameOver,
        }
    }

    /// The state after the pause action.
    pub fn toggle_pause(self) -> (next: GameState)
        ensures
            next == self.toggled(),
    {
        match self {
            GameState::InGame => GameState::Paused,
            GameState::Paused => GameState::InGame,
            GameState::GameOver => GameState::GameOver,
        }
    }
}

/// The entities that survive the end of a game: the head.
pub open spec fn survives_game_over(record: EntityRecord) -> bool {
    record.kind == EntityKind::SnakeHead
}

impl SessionView {
    /// The session after the pause key was or was not pressed this tick.
    pub open spec fn after_pause_input(self, pressed: bool) -> SessionView {
        if pressed {
            SessionView { state: self.state.toggled(), ..self }
        } else {
            self
        }
    }

    /// The session after the game-over messages of this tick were handled.
    /// One message or many have the same effect: the game is over, every
    /// coin and every body segment is destroyed, the reset control is shown
    /// and the score is zero. The chain keeps its entries until the reset
    /// action; they then name entities that are gone.
    pub open spec fn after_game_over(self) -> SessionView {
        if self.game_over == 0 {
            self
        } else {
            SessionView {
                state: GameState::GameOver,
                records: self.records.filter(|r: EntityRecord| survives_game_over(r)),
                reset_visible: true,
                score: 0,
                ..self
            }
        }
    }

    /// The session after the reset action: playing again at base speed with
    /// the chain cut back to the head, the reset control hidden and the
    /// game-over sound armed.
    pub open spec fn reset(self) -> SessionView {
        SessionView {
            state: GameState::InGame,
            chain: if self.chain.len() > 1 {
                self.chain.take(1)
            } else {
                self.chain
            },
            speed: BASE_SPEED,
            audio_played: false,
            reset_visible: false,
            ..self
        }
    }

    /// The session after the reset control was or was not pressed this tick.
    pub open spec fn after_reset_input(self, pressed: bool) -> SessionView {
        if pressed {
            self.reset()
        } else {
            self
        }
    }
}

impl GameSession {
    /// Handles the pause key: pressed this tick, it pauses a running game and
    /// resumes a paused one.
    pub fn game_state_system(&mut self, pause_pressed: bool)
        ensures
            final(self)@ == old(self)@.after_pause_input(pause_pressed),
            final(self).store == old(self).store,
    {
        if pause_pressed {
            self.state = self.state.toggle_pause();
        }
    }

    /// Handles the reset control: pressed this tick, it starts a new run.
    pub fn click_reset_button(&mut self, pressed: bool)
        ensures
            final(self)@ == old(self)@.after_reset_input(pressed),
            final(self).store == old(self).store,
    {
        if pressed {
            self.reset_button_visible = false;
            self.state = GameState::InGame;
            self.snake_segments.0.truncate(1);
            self.snake_speed.0 = BASE_SPEED;
            self.game_over_audio_played.0 = false;
            assert(self@.chain =~= old(self)@.reset().chain);
        }
    }

    /// Reacts to the game-over messages of this tick.
    pub fn reset_game(&mut self)
        requires
            old(self).wf(),
        ensures
            final(self).wf(),
            final(self)@ == old(self)@.after_game_over(),
    {
        if self.events.game_over.len() == 0 {
            return;
        }
        let ghost keep = |r: EntityRecord| survives_game_over(r);
        let records = self.store.records();
        let mut kept: Vec<EntityRecord> = Vec::new();
        let mut i: usize = 0;
        proof {
            assert(records@.take(0) =~= Seq::<EntityRecord>::empty());
            crate::entity::lemma_filter_empty(keep);
        }
        while i < records.len()
            invariant
                i <= records.len(),
                keep == |r: EntityRecord| survives_game_over(r),
                kept@ == records@.take(i as int).filter(keep),
            decreases records.len() - i,
        {
            let record = records[i];
            proof {
                crate::entity::lemma_filter_step(records@, keep, i as int);
            }
            if record.kind == EntityKind::SnakeHead {
                kept.push(record);
            }
            i += 1;
        }
        proof {
            assert(records@.take(i as int) =~= records@);
            crate::entity::lemma_filter_ascending(
                self.store@,
                keep,
                self.store.next_entity() as int,
            );
        }
        self.store.replace_records(kept);
        self.state = GameState::GameOver;
        self.reset_button_visible = true;
        self.score.0 = 0;
    }
}

} // verus!
