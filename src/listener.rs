//! The listening session's decisions: close what is open, pick a device,
//! fix the line parameters, and register the opened connection.

use vstd::prelude::*;
use vstd::string::StringExecFns;
use crate::device::{compatible, select_device, SerialPortInfo};
use crate::registry::Registry;

verus! {

/// Read timeout of an open connection, in milliseconds.
pub const READ_TIMEOUT_MS: u64 = 100;

/// Pause between two reader iterations, in milliseconds.
pub const POLL_DELAY_MS: u64 = 10;

/// Why listening could not start.
pub enum ListenError {
    /// The platform could not list its serial ports.
    Enumeration(String),
    /// No attached device qualifies.
    NoCompatibleDevice,
    /// The chosen port exists but could not be opened.
    OpenFailure { port: String, cause: String },
    /// The port already had a registered connection.
    AlreadyRegistered(String),
    /// The consumer of frames is not available.
    SinkUnavailable,
}

/// Line parameters of a connection: 8 data bits, no parity, one stop bit,
/// no flow control, and a short read timeout.
pub struct ConnectionSettings {
    pub port_name: String,
    pub baud_rate: u32,
    pub data_bits: u8,
    pub parity: bool,
    pub stop_bits: u8,
    pub flow_control: bool,
    pub timeout_ms: u64,
}

/// The text each error is reported with.
pub open spec fn error_text(e: ListenError) -> Seq<char> {
    match e {
        ListenError::Enumeration(cause) => "Error listing serial ports: "@ + cause@,
        ListenError::NoCompatibleDevice => "No compatible device found"@,
        ListenError::OpenFailure { port, cause } => "Failed to open "@ + port@ + ": "@ + cause@,
        ListenError::AlreadyRegistered(port) => "Port already open: "@ + port@,
        ListenError::SinkUnavailable => "Main window not found"@,
    }
}

/// The confirmation that cleanup gives.
pub open spec fn closed_text() -> Seq<char> {
    "All ports closed successfully"@
}

impl ListenError {
    /// The text this error is reported with.
    pub fn message(&self) -> (r: String)
        ensures
            r@ == error_text(*self),
    {
        match self {
            ListenError::Enumeration(cause) => String::from_str(
                "Error listing serial ports: ",
            ).concat(cause.as_str()),
            ListenError::NoCompatibleDevice => String::from_str("No compatible device found"),
            ListenError::OpenFailure { port, cause } => {
                let s = String::from_str("Failed to open ").concat(port.as_str());
                s.concat(": ").concat(cause.as_str())
            },
            ListenError::AlreadyRegistered(port) => String::from_str("Port already open: ").concat(
                port.as_str(),
            ),
            ListenError::SinkUnavailable => String::from_str("Main window not found"),
        }
    }
}

/// Closes every open connection and confirms. Succeeds whatever the
/// registry held, and leaves it empty.
pub fn cleanup_serial_ports<H>(registry: &mut Registry<H>) -> (r: Result<String, String>)
    requires
        old(registry).wf(),
    ensures
        final(registry).wf(),
        final(registry)@ == Map::<Seq<char>, H>::empty(),
        r matches Ok(t) && t@ == closed_text(),
{
    // Every handle drained here is closed when it goes out of scope.
    let _closed = registry.drain_all();
    Ok(String::from_str("All ports closed successfully"))
}

/// The line parameters for `port_name` at `baud_rate`.
pub fn connection_settings(port_name: String, baud_rate: u32) -> (r: ConnectionSettings)
    ensures
        r.port_name@ == port_name@,
        r.baud_rate == baud_rate,
        r.data_bits == 8,
        !r.parity,
        r.stop_bits == 1,
        !r.flow_control,
        r.timeout_ms == READ_TIMEOUT_MS,
{
    ConnectionSettings {
        port_name,
        baud_rate,
        data_bits: 8,
        parity: false,
        stop_bits: 1,
        flow_control: false,
        timeout_ms: READ_TIMEOUT_MS,
    }
}

/// The name of the first compatible device.
pub fn choose_port(ports: &Vec<SerialPortInfo>) -> (r: Result<String, ListenError>)
    ensures
        r is Err <==> forall|i: int| 0 <= i < ports@.len() ==> !compatible(#[trigger] ports@[i]),
        r matches Err(e) ==> e is NoCompatibleDevice,
        r matches Ok(name) ==> exists|k: int|
            0 <= k < ports@.len() && compatible(#[trigger] ports@[k]) && name@ == ports@[k].port_name@
                && forall|i: int| 0 <= i < k ==> !compatible(#[trigger] ports@[i]),
{
    match select_device(ports) {
        Some(k) => Ok(ports[k].port_name.clone()),
        None => Err(ListenError::NoCompatibleDevice),
    }
}

/// The first half of starting to listen: closes every open connection, then
/// picks the device from what enumeration returned and fixes the line
/// parameters to open it with.
pub fn plan_listen<H>(
    registry: &mut Registry<H>,
    enumerated: Result<Vec<SerialPortInfo>, String>,
    baud_rate: u32,
) -> (r: Result<ConnectionSettings, ListenError>)
    requires
        old(registry).wf(),
    ensures
        final(registry).wf(),
        final(registry)@ == Map::<Seq<char>, H>::empty(),
        match enumerated {
            Err(cause) => r matches Err(ListenError::Enumeration(c)) && c@ == cause@,
            Ok(ports) => if forall|i: int| 0 <= i < ports@.len() ==> !compatible(#[trigger] ports@[i]) {
                r matches Err(e) && e is NoCompatibleDevice
            } else {
                r matches Ok(s) && s.baud_rate == baud_rate && s.data_bits == 8 && !s.parity
                    && s.stop_bits == 1 && !s.flow_control && s.timeout_ms == READ_TIMEOUT_MS
                    && exists|k: int|
                    0 <= k < ports@.len() && compatible(#[trigger] ports@[k]) && s.port_name@
                        == ports@[k].port_name@ && forall|i: int|
                        0 <= i < k ==> !compatible(#[trigger] ports@[i])
            },
        },
{
    let _ = cleanup_serial_ports(registry);
    match enumerated {
        Err(cause) => Err(ListenError::Enumeration(cause)),
        Ok(ports) => match choose_port(&ports) {
            Ok(name) => Ok(connection_settings(name, baud_rate)),
            Err(e) => Err(e),
        },
    }
}

/// The second half of starting to listen: registers the connection that
/// opening `port` gave and returns the port's name. A failed open registers
/// nothing; neither does a port that already has a connection.
pub fn register_opened<H>(registry: &mut Registry<H>, port: String, opened: Result<H, String>) -> (r:
    Result<String, ListenError>)
    requires
        old(registry).wf(),
    ensures
        final(registry).wf(),
        match opened {
            Err(cause) => final(registry)@ == old(registry)@ && (r matches Err(
                ListenError::OpenFailure { port: p, cause: c },
            ) && p@ == port@ && c@ == cause@),
            Ok(h) => if old(registry)@.contains_key(port@) {
                final(registry)@ == old(registry)@ && (r matches Err(
                    ListenError::AlreadyRegistered(p),
                ) && p@ == port@)
            } else {
                final(registry)@ == old(registry)@.insert(port@, h) && (r matches Ok(p) && p@
                    == port@)
            },
        },
{
    match opened {
        Err(cause) => Err(ListenError::OpenFailure { port, cause }),
        Ok(h) => {
            let name = port.clone();
            match registry.insert(port, h) {
                Ok(()) => Ok(name),
                Err(_) => Err(ListenError::AlreadyRegistered(name)),
            }
        },
    }
}

} // verus!
