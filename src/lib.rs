//! A snake game simulation: grid coordinates with wraparound, the game engine
//! with its play/fail/win state machine, difficulty levels, the achievement
//! ledger and the keyboard-driven application state around them.

pub mod achive;
pub mod app;
pub mod difficulty;
pub mod game;
pub mod ledger;
pub mod types;

pub use achive::{achivements2map, Achivement, AchivementGroup, AchivementMap};
pub use app::{App, AppState, AppView, Key};
pub use difficulty::{dur2fps, fps, Difficulty, DifficultyFps, DifficultyKind};
pub use game::{Game, GameEvent, GameStatus, GameView, Stats};
pub use ledger::{
    achivements_csv, parse_achivements, record_of, save_achivement, sort_achivements,
    split_at_char,
    AchivementError,
};
pub use types::{Coord, CoordType, MoveTo, Pos};
