//! Client side of the x-callback-url protocol: the URL model with its
//! reserved/free-form parameter split, the correlation registry that routes
//! inbound callbacks to waiting requests, and the per-request decisions of the
//! client.

pub mod cli;
pub mod client;
pub mod registry;
pub mod text;
pub mod url_codec;
pub mod x_callback_url;
