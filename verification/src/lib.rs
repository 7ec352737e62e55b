//! A personal alarm-clock daemon's core: recurring, weekday-scoped alarms,
//! evaluated against wall-clock time and fired at most once per active day,
//! plus the message protocol that coordinates the scheduler with its
//! configuration watcher, keyboard reader and audio runner.
//!
//! - [`clock`] models a local wall-clock instant and reads the current one.
//! - [`config`] holds the alarm records, the time predicates that decide when
//!   one is due, and the configuration-line parser.
//! - [`input`] defines the runtime messages, the keyboard-token reader and
//!   the controller's routing rules.
//! - [`sched`] is the scheduler itself: one `tick` per poll interval, as a
//!   verified state machine.
//! - [`runner`] decides what the audio runner does with each message.
//! - [`text`] holds the character-level utilities the parsers build on.

pub mod clock;
pub mod config;
pub mod input;
pub mod runner;
pub mod sched;
pub mod text;
