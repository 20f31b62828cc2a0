//! The verified core of a yt-dlp front end: the command lines it runs, the
//! settings it accepts, how it reads what the tools print, where it keeps its
//! files, which executables it installs from archives, and the start-up
//! licence decision.
pub mod text;
pub mod paths;
pub mod args;
pub mod split;
pub mod download;
pub mod metadata;
pub mod output;
pub mod tools;
pub mod locations;
pub mod candidates;
pub mod launch;
pub mod archive;
pub mod search;
pub mod json;
