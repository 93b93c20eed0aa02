//! A patcher for Discord's Linux voice module, verified.

pub mod apply;
pub mod backup;
pub mod bytes;
pub mod cli;
pub mod console;
pub mod discovery;
pub mod elf;
pub mod manage;
pub mod md5;
pub mod patch;
pub mod picker;
pub mod resolve;
pub mod shellcode;
pub mod sig;
pub mod sites;
pub mod status;
pub mod text;
pub mod tui;
