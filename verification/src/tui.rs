//! The terminal interface: what `stereocord` does when you just run it.
//!
//! Three screens deep, and the order is the order the questions actually come
//! in. Which client? — then what is this module doing to my audio right now,
//! which is the thing nobody could see before. Only then the choices: patch it,
//! or manage the copies on disk.
//!
//! Nothing here touches a file or the terminal. A key turns one state into the
//! next and says what has to be done on disk, and a state turns into panes of
//! styled text.

pub mod app;
pub mod dialogs;
pub mod jobs;
pub mod keys;
pub mod laws;
pub mod layout;
pub mod panes;
pub mod paths;
pub mod promises;
pub mod scene;
pub mod screens;
pub mod targets;
pub mod theme;
