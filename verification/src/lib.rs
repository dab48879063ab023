//! Outcome resolution for transactions submitted to a gear node: what the events of a
//! transaction say became of it, which failure the chain's metadata names, and when a
//! wait on the node's event stream is over.

pub mod api;
pub mod cmd;
pub mod hexadecimal;
