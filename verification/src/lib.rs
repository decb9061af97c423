//! A conversational messaging agent core: decides which inbound messages
//! deserve a reply, coordinates at most one in-flight reply per conversation
//! (cancelling a stale reply before a newer one starts), and paces reply
//! delivery to resemble human reading, thinking and typing latency.

pub mod addressing;
pub mod application;
pub mod media;
pub mod message;
pub mod orchestrator;
pub mod pipeline;
pub mod timing;
pub mod words;
