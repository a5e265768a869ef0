//! The dispatch core of a chat-room automation bot.
//!
//! The bot receives room messages, decides which registered capability
//! should react, and relays messages between clusters of rooms. This
//! library holds what the bot decides; talking to the messaging service is
//! left to the program around it.
//!
//! * [`value`] and [`value_laws`]: configuration documents and their layering.
//! * [`plugin`] and [`registry`]: declarations of capabilities and the
//!   trigger registry, with [`assoc`] as its insertion-ordered map.
//! * [`routing`]: the dev/prod routing classifier and the gating rules.
//! * [`dispatch`]: the per-message dispatch evaluator.
//! * [`relay`], [`relay_laws`] and [`forward`]: the relay planner and forwarder.
//! * [`assembly`]: how the registry is put together at start-up.
//! * [`builtin`], [`tools_manager`], [`phrases`], [`gewn`], [`ai`], [`pii`],
//!   [`backfill`], [`mcp`], [`wasm`], [`commands`]: the capabilities that
//!   ship with the bot, as far as they decide and compute.
//! * [`text`], [`strings`], [`flags`], [`chance`], [`logging`],
//!   [`verification`]: helpers.
//!
//! Contracts speak of strings as sequences of Unicode scalar values.

pub mod ai;
pub mod assembly;
pub mod assoc;
pub mod backfill;
pub mod builtin;
pub mod chance;
pub mod commands;
pub mod dispatch;
pub mod flags;
pub mod forward;
pub mod gewn;
pub mod logging;
pub mod mcp;
pub mod phrases;
pub mod pii;
pub mod plugin;
pub mod registry;
pub mod relay;
pub mod relay_laws;
pub mod routing;
pub mod strings;
pub mod text;
pub mod tools_manager;
pub mod value;
pub mod value_laws;
pub mod verification;
pub mod wasm;
