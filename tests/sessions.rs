use serial_bridge::device::SerialPortInfo;
use serial_bridge::listener::{
    cleanup_serial_ports, connection_settings, plan_listen, register_opened, ListenError,
    READ_TIMEOUT_MS,
};
use serial_bridge::reader::{ReadEvent, ReaderLoop, ReaderState, StopReason};
use serial_bridge::registry::Registry;

#[derive(Debug, PartialEq)]
struct FakePort(u32);

fn name(s: &str) -> String {
    s.to_string()
}

#[test]
fn second_insert_without_remove_is_refused() {
    let mut reg = Registry::new();
    assert_eq!(reg.insert(name("COM1"), FakePort(1)), Ok(()));
    assert_eq!(reg.insert(name("COM1"), FakePort(2)), Err(FakePort(2)));
    assert_eq!(reg.remove(&name("COM1")), Some(FakePort(1)));
    assert_eq!(reg.insert(name("COM1"), FakePort(3)), Ok(()));
    assert_eq!(reg.remove(&name("COM1")), Some(FakePort(3)));
    assert_eq!(reg.remove(&name("COM1")), None);
}

#[test]
fn entry_mut_changes_the_handle_in_place() {
    let mut reg = Registry::new();
    assert!(reg.insert(name("COM1"), FakePort(1)).is_ok());
    assert!(reg.insert(name("COM2"), FakePort(2)).is_ok());
    if let Some(h) = reg.entry_mut(&name("COM2")) {
        h.0 = 20;
    } else {
        panic!("COM2 is registered");
    }
    assert!(reg.entry_mut(&name("COM3")).is_none());
    assert_eq!(reg.remove(&name("COM2")), Some(FakePort(20)));
    assert!(reg.contains(&name("COM1")));
}

#[test]
fn drain_all_returns_every_entry() {
    let mut reg = Registry::new();
    for i in 0..5u32 {
        assert!(reg.insert(format!("COM{}", i), FakePort(i)).is_ok());
    }
    let mut drained = reg.drain_all();
    drained.sort_by_key(|(_, h)| h.0);
    assert_eq!(drained.len(), 5);
    for (i, (p, h)) in drained.iter().enumerate() {
        assert_eq!(p, &format!("COM{}", i));
        assert_eq!(h.0, i as u32);
    }
    assert!(reg.is_empty());
}

#[test]
fn cleanup_with_zero_one_and_many() {
    for n in [0u32, 1, 7] {
        let mut reg = Registry::new();
        for i in 0..n {
            assert!(reg.insert(format!("COM{}", i), FakePort(i)).is_ok());
        }
        assert_eq!(reg.is_empty(), n == 0);
        assert_eq!(cleanup_serial_ports(&mut reg), Ok("All ports closed successfully".to_string()));
        assert!(reg.is_empty());
        assert_eq!(cleanup_serial_ports(&mut reg), Ok("All ports closed successfully".to_string()));
    }
}

#[test]
fn listen_on_ftdi_device_emits_frames_in_order() {
    let mut reg: Registry<FakePort> = Registry::new();
    let ports = vec![SerialPortInfo::usb(name("COM1"), Some(name("FTDI")), None, None)];
    let settings = match plan_listen(&mut reg, Ok(ports), 9600) {
        Ok(s) => s,
        Err(e) => panic!("{}", e.message()),
    };
    assert_eq!(settings.port_name, "COM1");
    assert_eq!(settings.baud_rate, 9600);
    let port = settings.port_name.clone();
    match register_opened(&mut reg, port.clone(), Ok(FakePort(1))) {
        Ok(p) => assert_eq!(p, "COM1"),
        Err(e) => panic!("{}", e.message()),
    }
    let mut reader = ReaderLoop::new(port);
    let mut emitted = Vec::new();
    for chunk in [b"12.5\n3".to_vec(), b"4.1\n".to_vec()] {
        let step = reader.on_event(ReadEvent::Read(chunk));
        assert!(step.report.is_none());
        for f in step.frames {
            emitted.push(("serial-data", f));
        }
    }
    assert_eq!(
        emitted,
        vec![("serial-data", "12.5".to_string()), ("serial-data", "34.1".to_string())]
    );
    assert!(reader.is_running());
}

#[test]
fn listen_without_compatible_device_leaves_registry_empty() {
    let mut reg: Registry<FakePort> = Registry::new();
    let ports = vec![
        SerialPortInfo::other(name("COM1")),
        SerialPortInfo::usb(name("COM2"), Some(name("Prolific")), None, None),
    ];
    match plan_listen(&mut reg, Ok(ports), 9600) {
        Err(e) => {
            assert!(matches!(e, ListenError::NoCompatibleDevice));
            assert_eq!(e.message(), "No compatible device found");
        }
        Ok(_) => panic!("no device qualifies"),
    }
    assert!(reg.is_empty());
}

#[test]
fn plan_listen_closes_previous_connections() {
    let mut reg: Registry<FakePort> = Registry::new();
    assert!(reg.insert(name("COM7"), FakePort(7)).is_ok());
    let ports = vec![SerialPortInfo::usb(name("COM1"), Some(name("Arduino")), None, None)];
    assert!(plan_listen(&mut reg, Ok(ports), 115200).is_ok());
    assert!(reg.is_empty());
}

#[test]
fn enumeration_failure_is_reported() {
    let mut reg: Registry<FakePort> = Registry::new();
    match plan_listen(&mut reg, Err(name("no access")), 9600) {
        Err(e) => assert_eq!(e.message(), "Error listing serial ports: no access"),
        Ok(_) => panic!("enumeration failed"),
    }
}

#[test]
fn end_of_stream_removes_the_connection() {
    let mut reg: Registry<FakePort> = Registry::new();
    assert!(register_opened(&mut reg, name("COM1"), Ok(FakePort(1))).is_ok());
    let mut reader = ReaderLoop::new(name("COM1"));
    let step = reader.on_event(ReadEvent::Read(Vec::new()));
    assert!(step.frames.is_empty());
    assert_eq!(reader.state(), ReaderState::Stopped(StopReason::EndOfStream));
    assert_eq!(reader.release(&mut reg), Some(FakePort(1)));
    assert!(!reg.contains(&name("COM1")));
    assert_eq!(cleanup_serial_ports(&mut reg), Ok("All ports closed successfully".to_string()));
    assert!(reg.is_empty());
}

#[test]
fn missing_connection_stops_without_removal() {
    let mut reg: Registry<FakePort> = Registry::new();
    assert!(reg.insert(name("COM2"), FakePort(2)).is_ok());
    let mut reader = ReaderLoop::new(name("COM1"));
    let step = reader.on_event(ReadEvent::Missing);
    assert!(step.frames.is_empty() && step.report.is_none());
    assert_eq!(reader.state(), ReaderState::Stopped(StopReason::ConnectionMissing));
    assert_eq!(reader.release(&mut reg), None);
    assert!(reg.contains(&name("COM2")));
}

#[test]
fn failed_read_reports_once_and_stops() {
    let mut reader = ReaderLoop::new(name("COM1"));
    let step = reader.on_event(ReadEvent::Failed(name("device unplugged")));
    assert_eq!(step.report.as_deref(), Some("Error reading from port: device unplugged"));
    assert_eq!(reader.state(), ReaderState::Stopped(StopReason::FatalReadError));
    let later = reader.on_event(ReadEvent::Read(b"x\n".to_vec()));
    assert!(later.frames.is_empty() && later.report.is_none());
}

#[test]
fn timeout_keeps_running_and_buffer() {
    let mut reader = ReaderLoop::new(name("COM1"));
    assert!(reader.on_event(ReadEvent::Read(b"ab".to_vec())).frames.is_empty());
    assert!(reader.on_event(ReadEvent::TimedOut).frames.is_empty());
    assert!(reader.is_running());
    assert_eq!(reader.on_event(ReadEvent::Read(b"c\n".to_vec())).frames, vec!["abc".to_string()]);
    assert_eq!(reader.port(), "COM1");
}

#[test]
fn emit_failure_stops_and_releases() {
    let mut reg: Registry<FakePort> = Registry::new();
    assert!(reg.insert(name("COM1"), FakePort(1)).is_ok());
    let mut reader = ReaderLoop::new(name("COM1"));
    reader.on_emit_failed();
    assert_eq!(reader.state(), ReaderState::Stopped(StopReason::EmitFailed));
    assert_eq!(reader.release(&mut reg), Some(FakePort(1)));
    assert!(reg.is_empty());
}

#[test]
fn open_failure_registers_nothing() {
    let mut reg: Registry<FakePort> = Registry::new();
    match register_opened(&mut reg, name("COM1"), Err(name("Permission denied"))) {
        Err(e) => assert_eq!(e.message(), "Failed to open COM1: Permission denied"),
        Ok(_) => panic!("open failed"),
    }
    assert!(reg.is_empty());
}

#[test]
fn registering_an_open_port_is_refused() {
    let mut reg: Registry<FakePort> = Registry::new();
    assert!(register_opened(&mut reg, name("COM1"), Ok(FakePort(1))).is_ok());
    match register_opened(&mut reg, name("COM1"), Ok(FakePort(2))) {
        Err(e) => assert_eq!(e.message(), "Port already open: COM1"),
        Ok(_) => panic!("port already open"),
    }
    assert_eq!(reg.remove(&name("COM1")), Some(FakePort(1)));
}

#[test]
fn line_parameters_are_fixed() {
    let s = connection_settings(name("COM3"), 115200);
    assert_eq!(s.port_name, "COM3");
    assert_eq!(s.baud_rate, 115200);
    assert_eq!(s.data_bits, 8);
    assert!(!s.parity);
    assert_eq!(s.stop_bits, 1);
    assert!(!s.flow_control);
    assert_eq!(s.timeout_ms, READ_TIMEOUT_MS);
    assert_eq!(READ_TIMEOUT_MS, 100);
}

#[test]
fn sink_unavailable_message() {
    assert_eq!(ListenError::SinkUnavailable.message(), "Main window not found");
}
