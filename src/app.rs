use vstd::prelude::*;

use crate::achive::{achivements2map, is_grouping, Achivement, AchivementGroup, AchivementMap};
use crate::difficulty::{
    rate_of, spec_next, spec_prev, Difficulty, DifficultyFps, DifficultyKind, FPS_CONVERT,
};
use crate::game::{Game, GameEvent, GameStatus, GameView};
use crate::types::{pos, valid_size, MoveTo, Pos};

verus! {

/// Tick length of the user interface in microseconds: 20 frames per second.
pub const DEFAULT_UI_FPS: u64 = 50_000;

/// Tick length of event polling in microseconds: 60 polls per second.
pub const DEFAULT_EVENT_FPS: u64 = 16_666;

#[derive(Debug, Clone, Copy, PartialEq, Eq, Structural)]
pub enum AppState {
    Play,
    SelectDifficulty { was_paused: bool },
    Exit,
}

/// A key press, as the application reacts to it.
#[derive(Debug, Clone, Copy, PartialEq, Eq, Structural)]
pub enum Key {
    Char(char),
    F(u8),
    Left,
    Right,
    Up,
    Down,
    Enter,
    Esc,
    Other,
}

/// The abstract state of the application.
pub struct AppView {
    pub game: GameView,
    /// Size of the terminal frame
    pub block_size: Pos,
    /// Size of the game field requested for that frame
    pub game_size: Pos,
    pub state: AppState,
    pub difficulty: Difficulty,
    /// Tick lengths in microseconds
    pub ui_fps: u64,
    pub event_fps: u64,
    pub paused: bool,
    pub show_achivements_grouped: bool,
    pub achivements: Seq<Achivement>,
    pub achivements_map: Seq<AchivementGroup>,
    pub debug: bool,
}

/// The grid a field size gives: a size with an empty side leaves no room and
/// is played as a single cell, which is won at once.
pub open spec fn field_of(size: Pos) -> Pos {
    if valid_size(size) {
        size
    } else {
        pos(1, 1)
    }
}

pub open spec fn min_u64(a: u64, b: u64) -> u64 {
    if a <= b {
        a
    } else {
        b
    }
}

impl AppView {
    pub open spec fn wf(self) -> bool {
        self.game.inv()
    }

    /// `post` is `self` after a restart: a new game on the requested field, the
    /// selected difficulty reset to the one in use, unpaused, playing.
    pub open spec fn restarted(self, post: AppView) -> bool {
        &&& post.game.is_new_game(field_of(self.game_size))
        &&& post == AppView {
            game: post.game,
            difficulty: Difficulty { kind: self.difficulty.prev, ..self.difficulty },
            paused: false,
            state: AppState::Play,
            ..self
        }
    }

    pub open spec fn with_kind(self, kind: DifficultyKind) -> AppView {
        AppView { difficulty: Difficulty { kind, ..self.difficulty }, ..self }
    }

    /// Leaving the selector without a change.
    pub open spec fn undone(self) -> AppView {
        AppView {
            difficulty: Difficulty { kind: self.difficulty.prev, ..self.difficulty },
            paused: if self.state == (AppState::SelectDifficulty { was_paused: false }) {
                false
            } else {
                self.paused
            },
            state: AppState::Play,
            ..self
        }
    }

    /// The state with the selected difficulty in use and its tick lengths.
    pub open spec fn with_selected_in_use(self) -> AppView {
        let tick = (FPS_CONVERT / rate_of(self.difficulty.kind)) as u64;
        AppView {
            difficulty: Difficulty {
                prev: self.difficulty.kind,
                fps: DifficultyFps(tick),
                ..self.difficulty
            },
            ui_fps: min_u64(DEFAULT_UI_FPS, tick),
            event_fps: min_u64(DEFAULT_EVENT_FPS, tick),
            ..self
        }
    }

    /// `post` is `self` after confirming the selector: unchanged difficulty
    /// resumes play; a new one is put in use and the game restarts.
    pub open spec fn submitted(self, post: AppView) -> bool {
        if self.difficulty.prev == self.difficulty.kind {
            post == AppView { paused: false, state: AppState::Play, ..self }
        } else {
            self.with_selected_in_use().restarted(post)
        }
    }

    /// Opening the selector pauses the game and remembers whether it was paused.
    pub open spec fn selecting(self) -> AppView {
        AppView {
            state: AppState::SelectDifficulty { was_paused: self.paused },
            paused: true,
            ..self
        }
    }

    /// `post` is `self` after the key `key` was pressed.
    pub open spec fn key_step(self, key: Key, post: AppView) -> bool {
        match key {
            Key::Char('q') => post == AppView { state: AppState::Exit, ..self },
            Key::Char('r') => self.restarted(post),
            Key::F(3) => post == AppView { debug: !self.debug, ..self },
            _ => if self.state is SelectDifficulty {
                match key {
                    Key::Char('s') => post == self.with_kind(DifficultyKind::Secret),
                    Key::Left => post == self.with_kind(spec_prev(self.difficulty.kind)),
                    Key::Right => post == self.with_kind(spec_next(self.difficulty.kind)),
                    Key::Char('d') => post == self.undone(),
                    Key::Enter => self.submitted(post),
                    _ => post == self,
                }
            } else {
                match key {
                    Key::Char('d') => post == self.selecting(),
                    Key::Char('a') => post == AppView {
                        show_achivements_grouped: !self.show_achivements_grouped,
                        ..self
                    },
                    _ => if self.game.stats.status != GameStatus::Play {
                        post == self
                    } else if key == Key::Esc {
                        post == AppView { paused: !self.paused, ..self }
                    } else if self.paused {
                        post == self
                    } else {
                        match key {
                            Key::Left => post == AppView {
                                game: self.game.rotated(MoveTo::Left),
                                ..self
                            },
                            Key::Right => post == AppView {
                                game: self.game.rotated(MoveTo::Right),
                                ..self
                            },
                            Key::Up => post == AppView {
                                game: self.game.rotated(MoveTo::Up),
                                ..self
                            },
                            Key::Down => post == AppView {
                                game: self.game.rotated(MoveTo::Down),
                                ..self
                            },
                            _ => post == self,
                        }
                    },
                }
            },
        }
    }
}

/// The application: a game, the difficulty selector, pause and the loaded
/// achievements. A driving loop feeds it key presses, ticks and frame sizes.
#[derive(Debug)]
pub struct App {
    game: Game,
    block_size: Pos,
    game_size: Pos,
    state: AppState,
    difficulty: Difficulty,
    ui_fps: u64,
    event_fps: u64,
    paused: bool,
    show_achivements_grouped: bool,
    achivements: Vec<Achivement>,
    achivements_map: AchivementMap,
    debug: bool,
}

impl View for App {
    type V = AppView;

    closed spec fn view(&self) -> AppView {
        AppView {
            game: self.game@,
            block_size: self.block_size,
            game_size: self.game_size,
            state: self.state,
            difficulty: self.difficulty,
            ui_fps: self.ui_fps,
            event_fps: self.event_fps,
            paused: self.paused,
            show_achivements_grouped: self.show_achivements_grouped,
            achivements: self.achivements@,
            achivements_map: self.achivements_map@,
            debug: self.debug,
        }
    }
}

impl App {
    /// A new application: no frame yet, the default difficulty, and a
    /// placeholder one-cell game until the first frame size arrives.
    pub fn new() -> (r: Self)
        ensures
            r@.wf(),
            r@.game.is_new_game(pos(1, 1)),
            r@.block_size == pos(0, 0),
            r@.game_size == pos(0, 0),
            r@.state == AppState::Play,
            r@.difficulty.prev == DifficultyKind::Normal,
            r@.difficulty.kind == DifficultyKind::Normal,
            r@.difficulty.fps.0 == FPS_CONVERT / rate_of(DifficultyKind::Normal),
            r@.ui_fps == DEFAULT_UI_FPS,
            r@.event_fps == DEFAULT_EVENT_FPS,
            !r@.paused,
            !r@.show_achivements_grouped,
            r@.achivements.len() == 0,
            r@.achivements_map.len() == 0,
            !r@.debug,
    {
        App {
            game: Game::new(Pos::new(1, 1)),
            block_size: Pos::new(0, 0),
            game_size: Pos::new(0, 0),
            state: AppState::Play,
            difficulty: Difficulty::default(),
            ui_fps: DEFAULT_UI_FPS,
            event_fps: DEFAULT_EVENT_FPS,
            paused: false,
            show_achivements_grouped: false,
            achivements: Vec::new(),
            achivements_map: Vec::new(),
            debug: false,
        }
    }

    // -------- handle events --------

    /// Reacts to one key press.
    pub fn handle_key_event(&mut self, key: Key)
        requires
            old(self)@.wf(),
        ensures
            final(self)@.wf(),
            old(self)@.key_step(key, final(self)@),
    {
        // common keys
        match key {
            Key::Char('q') => {
                self.exit();
                return;
            },
            Key::Char('r') => {
                self.restart();
                return;
            },
            Key::F(3) => {
                self.toggle_debug();
                return;
            },
            _ => {},
        }

        // keys for selecting difficulty
        if self.selecting_difficulty() {
            match key {
                Key::Char('s') => self.select_difficulty(DifficultyKind::Secret),
                Key::Left => self.select_difficulty(self.difficulty.kind.prev()),
                Key::Right => self.select_difficulty(self.difficulty.kind.next()),
                Key::Char('d') => self.undo_difficulty(),
                Key::Enter => self.submit_difficulty(),
                _ => {},
            }
            return;
        }

        // keys when playing
        match key {
            Key::Char('d') => {
                self.set_select_difficulty();
                return;
            },
            Key::Char('a') => {
                self.toggle_achivements_grouped();
                return;
            },
            _ => {},
        }

        if self.game_ended() {
            return;
        }

        // keys when playing except fail/win
        if key == Key::Esc {
            self.toggle_pause();
            return;
        }

        if self.paused {
            return;
        }

        // keys for snake rotate
        match key {
            Key::Left => self.rotate_snake(MoveTo::Left),
            Key::Right => self.rotate_snake(MoveTo::Right),
            Key::Up => self.rotate_snake(MoveTo::Up),
            Key::Down => self.rotate_snake(MoveTo::Down),
            _ => {},
        }
    }

    /// Takes a new frame size and the field size it asks for; a changed frame
    /// restarts the game on the new field.
    pub fn resize(&mut self, block_size: Pos, game_size: Pos)
        requires
            old(self)@.wf(),
        ensures
            final(self)@.wf(),
            if block_size == old(self)@.block_size {
                final(self)@ == old(self)@
            } else {
                (AppView { block_size, game_size, ..old(self)@ }).restarted(final(self)@)
            },
    {
        if block_size != self.block_size {
            self.block_size = block_size;
            self.game_size = game_size;
            self.restart();
        }
    }

    // -------- get values --------

    pub fn exited(&self) -> (r: bool)
        ensures
            r == (self@.state == AppState::Exit),
    {
        self.state == AppState::Exit
    }

    pub fn playing(&self) -> (r: bool)
        ensures
            r == (self@.state == AppState::Play),
    {
        self.state == AppState::Play
    }

    pub fn game_ended(&self) -> (r: bool)
        ensures
            r == (self@.game.stats.status != GameStatus::Play),
    {
        self.game.stats().status != GameStatus::Play
    }

    pub fn selecting_difficulty(&self) -> (r: bool)
        ensures
            r == (self@.state is SelectDifficulty),
    {
        match self.state {
            AppState::SelectDifficulty { .. } => true,
            _ => false,
        }
    }

    pub fn difficulty_changed(&self) -> (r: bool)
        ensures
            r == (self@.difficulty.prev != self@.difficulty.kind),
    {
        self.difficulty.prev != self.difficulty.kind
    }

    pub fn state(&self) -> (r: AppState)
        ensures
            r == self@.state,
    {
        self.state
    }

    pub fn game(&self) -> (r: &Game)
        ensures
            r@ == self@.game,
    {
        &self.game
    }

    pub fn difficulty(&self) -> (r: Difficulty)
        ensures
            r == self@.difficulty,
    {
        self.difficulty
    }

    pub fn block_size(&self) -> (r: Pos)
        ensures
            r == self@.block_size,
    {
        self.block_size
    }

    pub fn game_size(&self) -> (r: Pos)
        ensures
            r == self@.game_size,
    {
        self.game_size
    }

    pub fn ui_fps(&self) -> (r: u64)
        ensures
            r == self@.ui_fps,
    {
        self.ui_fps
    }

    pub fn event_fps(&self) -> (r: u64)
        ensures
            r == self@.event_fps,
    {
        self.event_fps
    }

    pub fn paused(&self) -> (r: bool)
        ensures
            r == self@.paused,
    {
        self.paused
    }

    pub fn debug(&self) -> (r: bool)
        ensures
            r == self@.debug,
    {
        self.debug
    }

    pub fn show_achivements_grouped(&self) -> (r: bool)
        ensures
            r == self@.show_achivements_grouped,
    {
        self.show_achivements_grouped
    }

    pub fn achivements(&self) -> (r: &Vec<Achivement>)
        ensures
            r@ == self@.achivements,
    {
        &self.achivements
    }

    pub fn achivements_map(&self) -> (r: &AchivementMap)
        ensures
            r@ == self@.achivements_map,
    {
        &self.achivements_map
    }

    /// The record to save for `username`: the selected difficulty and the
    /// current score.
    pub fn achivement(&self, username: String) -> (r: Achivement)
        ensures
            r.username == username,
            r.difficulty == self@.difficulty.kind,
            r.score == self@.game.stats.score,
    {
        Achivement {
            username,
            difficulty: self.difficulty.kind,
            score: self.game.stats().score,
        }
    }

    // -------- set values --------

    pub fn select_difficulty(&mut self, d: DifficultyKind)
        ensures
            final(self)@ == old(self)@.with_kind(d),
    {
        self.difficulty.kind = d;
    }

    pub fn reset_difficulty(&mut self)
        ensures
            final(self)@ == old(self)@.with_kind(old(self)@.difficulty.prev),
    {
        self.difficulty.kind = self.difficulty.prev;
    }

    /// Leaves the selector, keeping the difficulty in use; play resumes unless
    /// the game was paused when the selector opened.
    pub fn undo_difficulty(&mut self)
        ensures
            final(self)@ == old(self)@.undone(),
    {
        self.reset_difficulty();
        if let AppState::SelectDifficulty { was_paused: false } = self.state {
            self.unpause();
        }
        self.reset_app_state();
    }

    /// Confirms the selector: a changed difficulty is put in use and the game
    /// restarts; otherwise play resumes.
    pub fn submit_difficulty(&mut self)
        requires
            old(self)@.wf(),
        ensures
            final(self)@.wf(),
            old(self)@.submitted(final(self)@),
    {
        if !self.difficulty_changed() {
            self.unpause();
            self.reset_app_state();
            return;
        }
        self.difficulty.prev = self.difficulty.kind;
        self.difficulty.update_fps();
        self.update_fps();
        self.restart();
    }

    /// Derives the interface and polling ticks from the difficulty's tick: the
    /// shorter of each default and the snake's tick.
    pub fn update_fps(&mut self)
        ensures
            final(self)@ == (AppView {
                ui_fps: min_u64(DEFAULT_UI_FPS, old(self)@.difficulty.fps.0),
                event_fps: min_u64(DEFAULT_EVENT_FPS, old(self)@.difficulty.fps.0),
                ..old(self)@
            }),
    {
        let fps = self.difficulty.fps.duration();
        self.ui_fps = if DEFAULT_UI_FPS <= fps {
            DEFAULT_UI_FPS
        } else {
            fps
        };
        self.event_fps = if DEFAULT_EVENT_FPS <= fps {
            DEFAULT_EVENT_FPS
        } else {
            fps
        };
    }

    /// Takes the achievements just read and groups them by user.
    pub fn read_achivement(&mut self, achivements: Vec<Achivement>)
        ensures
            final(self)@.achivements == achivements@,
            is_grouping(final(self)@.achivements_map, achivements@),
            final(self)@ == (AppView {
                achivements: final(self)@.achivements,
                achivements_map: final(self)@.achivements_map,
                ..old(self)@
            }),
    {
        self.achivements_map = achivements2map(achivements.as_slice());
        self.achivements = achivements;
    }

    // -------- set game states --------

    pub fn exit(&mut self)
        ensures
            final(self)@ == (AppView { state: AppState::Exit, ..old(self)@ }),
    {
        self.state = AppState::Exit;
    }

    pub fn toggle_pause(&mut self)
        ensures
            final(self)@ == (AppView { paused: !old(self)@.paused, ..old(self)@ }),
    {
        self.paused = !self.paused;
    }

    pub fn toggle_debug(&mut self)
        ensures
            final(self)@ == (AppView { debug: !old(self)@.debug, ..old(self)@ }),
    {
        self.debug = !self.debug;
    }

    /// Opens the difficulty selector and pauses the game.
    pub fn set_select_difficulty(&mut self)
        ensures
            final(self)@ == old(self)@.selecting(),
    {
        self.state = AppState::SelectDifficulty { was_paused: self.paused };
        self.pause();
    }

    pub fn pause(&mut self)
        ensures
            final(self)@ == (AppView { paused: true, ..old(self)@ }),
    {
        self.paused = true;
    }

    pub fn unpause(&mut self)
        ensures
            final(self)@ == (AppView { paused: false, ..old(self)@ }),
    {
        self.paused = false;
    }

    pub fn reset_app_state(&mut self)
        ensures
            final(self)@ == (AppView { state: AppState::Play, ..old(self)@ }),
    {
        self.state = AppState::Play;
    }

    pub fn toggle_achivements_grouped(&mut self)
        ensures
            final(self)@ == (AppView {
                show_achivements_grouped: !old(self)@.show_achivements_grouped,
                ..old(self)@
            }),
    {
        self.show_achivements_grouped = !self.show_achivements_grouped;
    }

    // -------- set game values --------

    /// Starts a new game on the requested field, resets the selected
    /// difficulty to the one in use, and resumes play.
    pub fn restart(&mut self)
        ensures
            final(self)@.wf(),
            old(self)@.restarted(final(self)@),
    {
        let size = if self.game_size.x.0 >= 1 && self.game_size.y.0 >= 1 {
            self.game_size
        } else {
            Pos::new(1, 1)
        };
        self.game = Game::new(size);
        self.reset_difficulty();
        self.unpause();
        self.reset_app_state();
    }

    /// Moves the snake one step.
    pub fn move_snake(&mut self)
        requires
            old(self)@.wf(),
        ensures
            final(self)@.wf(),
            old(self)@.game.step_to(final(self)@.game),
            final(self)@ == (AppView { game: final(self)@.game, ..old(self)@ }),
    {
        self.game.move_snake();
    }

    /// Marks the game's last event processed, if it is still `event`.
    pub fn forgot_event(&mut self, event: GameEvent)
        requires
            old(self)@.wf(),
        ensures
            final(self)@.wf(),
            final(self)@ == (AppView {
                game: GameView {
                    last_event: if old(self)@.game.last_event == Some(event) {
                        None
                    } else {
                        old(self)@.game.last_event
                    },
                    ..old(self)@.game
                },
                ..old(self)@
            }),
    {
        self.game.forgot_event(event);
    }

    /// Turns the snake, under the game's rule against turning straight back.
    pub fn rotate_snake(&mut self, to: MoveTo)
        requires
            old(self)@.wf(),
        ensures
            final(self)@.wf(),
            final(self)@ == (AppView { game: old(self)@.game.rotated(to), ..old(self)@ }),
    {
        self.game.rotate_to(to);
    }
}

} // verus!
