//! Issue keys between branch names and commit messages.
//!
//! A branch that is made for an issue carries the key of the issue in its
//! name, and every commit on that branch carries the key at the beginning of
//! its message. This library names the branch (`repo`, `branch_name`,
//! `sanitize`), finds keys in text (`key`, `types`), and decides what becomes
//! of a draft commit message (`hooks`). Beside that it holds what the
//! commands of the program decide before they act (`commands`), the
//! configuration (`config`, `value`), and what is sent to the issue tracker
//! (`client`, `types`, `worklog`).
//!
//! Text is handled as sequences of characters (`text`, `case`): every length
//! and every index counts characters.

pub mod branch_name;
pub mod case;
pub mod client;
pub mod commands;
pub mod config;
pub mod error;
pub mod hooks;
pub mod key;
pub mod repo;
pub mod sanitize;
pub mod text;
pub mod types;
pub mod value;
pub mod worklog;
