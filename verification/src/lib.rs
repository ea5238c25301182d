//! nano: the state, protocol and layout rules of a small terminal agent harness.

pub mod provider;
pub mod runtime;
pub mod session;
pub mod text;
pub mod text_laws;
pub mod tui;
pub mod view_laws;
