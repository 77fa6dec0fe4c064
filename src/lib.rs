//! Mention detection and report dispatch for a room-monitoring chat bot.
//!
//! The classifier decides, from an incoming message event and the bot's
//! read-only context, whether the bot was mentioned in a monitored room.
//! The dispatcher is a small state machine that tells its driver which
//! report rooms to notify and whether to acknowledge the original event.
pub mod text;
pub mod classify;
pub mod permalink;
pub mod dispatch;
