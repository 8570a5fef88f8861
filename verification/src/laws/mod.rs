//! What holds of the library as a whole.

pub mod addresses;
pub mod applet;
pub mod entries;
pub mod jobs;
pub mod network;
pub mod reactions;
pub mod reports;
pub mod shown;
pub mod switches;
pub mod texts;
pub mod versions;
pub mod world;
