//! Host-side serial bridge: device selection, a registry of open
//! connections, newline frame reassembly and the reader's state machine.

pub mod text;
pub mod frame;
pub mod device;
pub mod registry;
pub mod reader;
pub mod listener;
