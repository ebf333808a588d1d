//! Decision logic of a League of Legends client companion: it reads the
//! client's lockfile, talks to the client's local API, and, while the user
//! is marked ready, fills in champion select (champion, summoner spells and
//! a rune page) at random.

pub mod decimal;
pub mod json;
pub mod lockfile;
pub mod chance;
pub mod credentials;
pub mod frames;
pub mod picks;
pub mod runes;
pub mod watcher;
pub mod api;
pub mod tray;
