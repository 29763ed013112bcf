//! Finds the guilds of a Shakes & Fidget server that one's own guild can
//! attack, and simulates battles against them.
//!
//! The library decides; reading from the server, storing files and answering
//! requests are left to the program around it.
//!
//! - `attack`, `settings`: which guilds may be attacked, and what is scanned.
//! - `guild`, `roster`: guilds and their members.
//! - `hof`, `strict`, `detail`, `scan`: a scan, page by page and guild by guild.
//! - `results`: what is shown of a scan.
//! - `battle`, `rounds`, `fighters`, `simulation`: simulated battles.
//! - `state`, `progress`, `response`: what is loaded, what is running, and how
//!   requests are answered.
//! - `clock`, `paths`, `sorting`, `text`: what the rest is built on.

pub mod attack;
pub mod battle;
pub mod clock;
pub mod detail;
pub mod fighters;
pub mod guild;
pub mod hof;
pub mod paths;
pub mod progress;
pub mod response;
pub mod results;
pub mod roster;
pub mod rounds;
pub mod scan;
pub mod settings;
pub mod simulation;
pub mod sorting;
pub mod state;
pub mod strict;
pub mod text;
