//! Rule-evaluation and interaction engine for a text-driven role-playing
//! simulator: condition evaluation, reward application, quest tracking,
//! travel and reputation resolution, dialogue-tree walking, the player
//! mode state machine, and the combat turn cycle.

pub mod args;
pub mod attribute;
pub mod condition;
pub mod config;
pub mod entity;
pub mod game;
pub mod interaction;
pub mod inventory;
pub mod location;
pub mod named;
pub mod num;
pub mod quest;
pub mod range;
pub mod reward;
pub mod rng;
pub mod strmap;
pub mod strutil;
pub mod time;

pub use args::Args;
pub use condition::Condition;
pub use entity::Player;
pub use game::GameData;
pub use interaction::InteractionType;
pub use quest::Quest;
pub use range::Range;
pub use reward::Reward;
pub use strmap::StrMap;
pub use time::GameTime;
