//! The game session: every piece of state that the simulation owns, passed
//! explicitly to each system, and its mathematical view.

use crate::coin::{in_spawn_area, CoinTimer, WindowSize};
use crate::entity::{Entity, EntityRecord, EntityStore};
use crate::event::Events;
use crate::game_audio::GameOverAudioPlayed;
use crate::game_state::{GameState, Score};
use crate::geometry::{Direction, Position};
use crate::snake::{LastDirection, MousePosition, SnakeSegments, SnakeSpeed, BASE_SPEED};
use crate::timer::Countdown;
use vstd::prelude::*;

verus! {

/// One run of the game from the simulation's point of view.
#[derive(Clone, PartialEq, Eq, Debug)]
pub struct GameSession {
    /// Playing, paused or over.
    pub state: GameState,
    /// Coins collected in the current run.
    pub score: Score,
    /// Speed of the head.
    pub snake_speed: SnakeSpeed,
    /// The chain: the snake's entities, head first.
    pub snake_segments: SnakeSegments,
    /// Where the pointer was last seen, in game coordinates.
    pub mouse_position: MousePosition,
    /// The last heading of the head.
    pub last_direction: LastDirection,
    /// Time to the next coin.
    pub coin_timer: CoinTimer,
    /// Whether the game-over sound was played since the last reset.
    pub game_over_audio_played: GameOverAudioPlayed,
    /// Whether the control that restarts the game is shown.
    pub reset_button_visible: bool,
    /// The message queues of the current tick.
    pub events: Events,
    /// The live entities.
    pub store: EntityStore,
}

/// The session as plain mathematics: what the contracts speak about.
#[verifier::ext_equal]
pub struct SessionView {
    pub state: GameState,
    pub score: u32,
    pub speed: u32,
    pub chain: Seq<Entity>,
    pub mouse: Position,
    pub last_direction: Direction,
    pub coin_timer: Countdown,
    pub audio_played: bool,
    pub reset_visible: bool,
    /// Pending "snake collided" messages.
    pub snake_collide: nat,
    /// Pending "coin collected" messages.
    pub coin_collected: nat,
    /// Pending "game over" messages.
    pub game_over: nat,
    /// The live entities in spawn order.
    pub records: Seq<EntityRecord>,
    /// The identifier that the next entity receives.
    pub next_entity: Entity,
}

/// What the outside world did during one tick.
#[derive(Clone, PartialEq, Eq, Debug)]
pub struct TickInput {
    /// Time since the previous tick, in nanoseconds.
    pub dt_ns: u64,
    /// The pointer movements of this tick in window coordinates, oldest
    /// first.
    pub cursor_moved: Vec<Position>,
    /// The size of the window, if there is one.
    pub window: Option<WindowSize>,
    /// Whether the pause key went down during this tick.
    pub pause_pressed: bool,
    /// Whether the reset control was pressed during this tick.
    pub reset_pressed: bool,
}

/// What the outside world is to do after one tick.
#[derive(Clone, Copy, PartialEq, Eq, Debug)]
pub struct TickOutput {
    /// How many times to play the coin sound.
    pub coin_clips: usize,
    /// Whether to play the game-over sound.
    pub game_over_clip: bool,
    /// Whether to stop the sounds that were playing before this tick: the
    /// game ended in it.
    pub stop_sounds: bool,
    /// Where a coin appeared, if one did.
    pub coin_drawn: Option<Position>,
}

impl View for GameSession {
    type V = SessionView;

    open spec fn view(&self) -> SessionView {
        SessionView {
            state: self.state,
            score: self.score.0,
            speed: self.snake_speed.0,
            chain: self.snake_segments.0@,
            mouse: self.mouse_position.0,
            last_direction: self.last_direction.0,
            coin_timer: self.coin_timer.0,
            audio_played: self.game_over_audio_played.0,
            reset_visible: self.reset_button_visible,
            snake_collide: self.events.snake_collide@.len(),
            coin_collected: self.events.coin_collected@.len(),
            game_over: self.events.game_over@.len(),
            records: self.store@,
            next_entity: self.store.next_entity(),
        }
    }
}

impl SessionView {
    /// The session before anything is spawned: playing, nothing scored, base
    /// speed, an empty chain, one second to the first coin.
    pub open spec fn blank() -> SessionView {
        SessionView {
            state: GameState::InGame,
            score: 0,
            speed: BASE_SPEED,
            chain: Seq::empty(),
            mouse: Position { x: 0, y: 0 },
            last_direction: Direction::zero_spec(),
            coin_timer: Countdown::of_seconds(1),
            audio_played: false,
            reset_visible: false,
            snake_collide: 0,
            coin_collected: 0,
            game_over: 0,
            records: Seq::empty(),
            next_entity: 0,
        }
    }

    /// The session at startup: blank, with the head spawned.
    pub open spec fn initial() -> SessionView {
        SessionView::blank().with_snake()
    }
}

impl SessionView {
    /// The session with its message queues emptied.
    pub open spec fn cleared(self) -> SessionView {
        SessionView { snake_collide: 0, coin_collected: 0, game_over: 0, ..self }
    }

    /// The session after the first half of a tick: input, movement, the coin
    /// spawner and the collision detector, in this order. `drawn` is the
    /// place drawn for a coin, if one was due.
    pub open spec fn after_detection(
        self,
        dt_ns: u64,
        moves: Seq<Position>,
        window: Option<WindowSize>,
        pause_pressed: bool,
        reset_pressed: bool,
        drawn: Option<Position>,
    ) -> SessionView {
        self.after_cursor_moves(moves, window).after_pause_input(pause_pressed).after_reset_input(
            reset_pressed,
        ).after_head_movement(dt_ns).after_follow(dt_ns).after_coin_spawn(
            dt_ns,
            drawn,
        ).after_pickup().after_self_collision().after_immunity(dt_ns)
    }

    /// The session after the second half of a tick: the systems that read
    /// the messages of the detector, then the tick boundary.
    pub open spec fn after_reactions(self) -> SessionView {
        self.after_growth().after_game_over_audio().after_game_over().cleared()
    }

    /// A coin is due in the tick described by the arguments: when the coin
    /// spawner runs, after input and movement.
    pub open spec fn coin_due_in_tick(
        self,
        dt_ns: u64,
        moves: Seq<Position>,
        window: Option<WindowSize>,
        pause_pressed: bool,
        reset_pressed: bool,
    ) -> bool {
        self.after_cursor_moves(moves, window).after_pause_input(pause_pressed).after_reset_input(
            reset_pressed,
        ).after_head_movement(dt_ns).after_follow(dt_ns).coin_due(dt_ns, window)
    }
}

impl GameSession {
    /// The session's invariant: that of its entity store.
    pub open spec fn wf(&self) -> bool {
        self.store.wf()
    }

    /// A session at startup: the head alone at the origin, playing.
    pub fn new() -> (session: GameSession)
        ensures
            session.wf(),
            session@ == SessionView::initial(),
    {
        let mut session = GameSession {
            state: GameState::InGame,
            score: Score(0),
            snake_speed: SnakeSpeed(BASE_SPEED),
            snake_segments: SnakeSegments(Vec::new()),
            mouse_position: MousePosition(Position::origin()),
            last_direction: LastDirection(Direction::zero()),
            coin_timer: CoinTimer(Countdown::from_seconds(1)),
            game_over_audio_played: GameOverAudioPlayed(false),
            reset_button_visible: false,
            events: Events::new(),
            store: EntityStore::new(),
        };
        assert(session@ =~= SessionView::blank());
        session.spawn_snake();
        session
    }
}

impl GameSession {
    /// Runs one tick: every system once, in the order that the game
    /// depends on. Input is taken before the head moves, the head moves
    /// before the segments follow, movement comes before collision
    /// detection, and the messages of the detector are read by every
    /// consumer before the queues are emptied at the end of the tick.
    pub fn tick(&mut self, input: &TickInput) -> (output: TickOutput)
        requires
            old(self).wf(),
        ensures
            final(self).wf(),
            output.coin_drawn is Some == old(self)@.coin_due_in_tick(
                input.dt_ns,
                input.cursor_moved@,
                input.window,
                input.pause_pressed,
                input.reset_pressed,
            ),
            output.coin_drawn is Some ==> in_spawn_area(input.window->0, output.coin_drawn->0),
            output.coin_clips == old(self)@.after_detection(
                input.dt_ns,
                input.cursor_moved@,
                input.window,
                input.pause_pressed,
                input.reset_pressed,
                output.coin_drawn,
            ).coin_collected,
            output.game_over_clip == old(self)@.after_detection(
                input.dt_ns,
                input.cursor_moved@,
                input.window,
                input.pause_pressed,
                input.reset_pressed,
                output.coin_drawn,
            ).after_growth().game_over_audio_due(),
            output.stop_sounds == (old(self)@.after_detection(
                input.dt_ns,
                input.cursor_moved@,
                input.window,
                input.pause_pressed,
                input.reset_pressed,
                output.coin_drawn,
            ).game_over > 0),
            final(self)@ == old(self)@.after_detection(
                input.dt_ns,
                input.cursor_moved@,
                input.window,
                input.pause_pressed,
                input.reset_pressed,
                output.coin_drawn,
            ).after_reactions(),
    {
        self.track_mouse_movements(&input.cursor_moved, input.window);
        self.game_state_system(input.pause_pressed);
        self.click_reset_button(input.reset_pressed);
        self.snake_head_movement(input.dt_ns);
        self.move_snake_segments(input.dt_ns);
        let coin_drawn = self.spawn_coin(input.dt_ns, input.window);
        self.snake_collide_event_writer();
        self.check_snake_self_collision();
        self.update_segment_collision_flag(input.dt_ns);
        let coin_clips = self.play_coin_audio();
        let stop_sounds = self.events.game_over.len() > 0;
        self.add_snake_segment();
        let game_over_clip = self.play_game_over_audio();
        self.reset_game();
        self.events.clear();
        TickOutput { coin_clips, game_over_clip, stop_sounds, coin_drawn }
    }
}

} // verus!
