//! Decision logic of a SIP voice-agent node.
pub mod addr;
pub mod call;
pub mod callrecord;
pub mod chance;
pub mod clock;
pub mod config;
pub mod event;
pub mod handler;
pub mod maps;
pub mod media;
pub mod option;
pub mod sip;
pub mod sip_util;
pub mod text;
pub mod useragent;
