pub mod calendar;
pub mod cli;
pub mod git_bot;
pub mod grid;
pub mod image_proc;
pub mod preview;
pub mod prompt;
pub mod text;
pub mod run;
