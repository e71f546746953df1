//! The legs of a call: what is known of them, and what their dialogs ask for.
pub mod sip;
pub mod state;
pub mod tracks;
