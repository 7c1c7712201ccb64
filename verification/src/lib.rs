//! Core logic of a webhook-driven issue-tracker automation bot.
//!
//! The library interprets decoded tracker events (issue opened, comment
//! posted, pull request opened), derives the commenter's privilege tier,
//! parses embedded bot commands out of comment text, and computes the
//! tracker calls needed to converge labels and assignees toward the
//! desired state. All network transport lives outside the library.

mod command;
mod gate;
mod labels;
mod laws;
mod paths;
mod privilege;
mod reconcile;
mod router;
mod text;

pub use gate::command_allowed;
pub use paths::topic_labels;
pub use reconcile::TrackerCall;
pub use reconcile::plan_for_command;
pub use router::Actor;
pub use router::Event;
pub use router::Outcome;
pub use router::handle_event;

pub use labels::contains_label;
pub use labels::insert_label;

pub use command::Command;
pub use command::parse_comment;
pub use command::parse_line;

pub use privilege::Association;
pub use privilege::PrivilegeTier;
pub use privilege::classify;
pub use text::split_lines;
pub use text::tokenize;
pub use text::trim_start_str;
