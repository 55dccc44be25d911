//! A blocking byte-stream interface over a message-oriented, multiplexed
//! channel.
//!
//! A [`transport::MessageChannel`] moves whole messages between two
//! endpoints. [`client::VirgeClient`] and [`server::VirgeServer`] wrap one
//! and offer `read` / `write` on byte buffers of any size, keeping the
//! boundaries between messages visible to the reader. What they decide is
//! decided in [`stream::StreamState`], which knows nothing of the channel;
//! the buffering rules are those of [`stream::ReadState`].

pub mod client;
pub mod error;
pub mod server;
pub mod stream;
pub mod transport;
