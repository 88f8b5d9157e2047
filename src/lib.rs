//! Multiplexes client directory watches onto shared underlying watches, and
//! translates raw change notices into per-client events.

pub mod dispatch;
pub mod event;
pub mod laws;
pub mod paths;
pub mod registry;
pub mod supervisor;
pub mod text;
