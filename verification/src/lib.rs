//! Reaction-driven role assignment: when a member reacts to a role-menu
//! message in the watched channel, the reaction's symbol selects a named role
//! that is granted or revoked for that member.
//!
//! The library holds the decision logic only: filtering events to the watched
//! channel, parsing the role list out of a message's text, resolving a role
//! name to its identifier, and the per-event pipeline that ties those together.
//! Network delivery of events and the actual REST calls live outside, driven
//! through the pipeline's commands.

pub mod event;
pub mod filter;
pub mod handler;
pub mod member;
pub mod parser;
pub mod resolver;
pub mod text;
