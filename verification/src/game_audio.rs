//! Which sounds a tick calls for.

use crate::session::{GameSession, SessionView};
use vstd::prelude::*;

verus! {

/// Whether the game-over sound was played since the last reset.
#[derive(Clone, Copy, PartialEq, Eq, Debug, Structural)]
pub struct GameOverAudioPlayed(pub bool);

impl Default for GameOverAudioPlayed {
    fn default() -> (guard: GameOverAudioPlayed)
        ensures
            guard == GameOverAudioPlayed(false),
    {
        GameOverAudioPlayed(false)
    }
}

impl SessionView {
    /// The game-over sound is due: a game-over message is pending and the
    /// sound was not played since the last reset.
    pub open spec fn game_over_audio_due(self) -> bool {
        !self.audio_played && self.game_over > 0
    }

    /// The session after the game-over sound was decided on.
    pub open spec fn after_game_over_audio(self) -> SessionView {
        if self.game_over_audio_due() {
            SessionView { audio_played: true, ..self }
        } else {
            self
        }
    }
}

impl GameSession {
    /// How many times the coin sound is to be played this tick: once for
    /// each coin collected.
    pub fn play_coin_audio(&self) -> (clips: usize)
        ensures
            clips == self@.coin_collected,
    {
        self.events.coin_collected.len()
    }

    /// Whether the game-over sound is to be played this tick. It is played
    /// for the first game-over message after a reset and for no other.
    pub fn play_game_over_audio(&mut self) -> (play: bool)
        ensures
            play == old(self)@.game_over_audio_due(),
            final(self)@ == old(self)@.after_game_over_audio(),
            final(self).store == old(self).store,
    {
        if !self.game_over_audio_played.0 && self.events.game_over.len() > 0 {
            self.game_over_audio_played.0 = true;
            true
        } else {
            false
        }
    }
}

} // verus!
