use serial_ports::{
    available_ports, cancel_read, finish_write, register_opened, start_reader, close, close_all, force_close, get_data_bits, get_flow_control,
    get_parity, get_port_info, get_stop_bits, init, open, read, write_binary, ByteRead, CancelPoll,
    DataBits, FlowControl, Notice, Parity, PortConfig, PortDescriptor, PortError, PortHandle,
    PortKind, PortListing, ReaderEngine, ReaderState, Registry, StopBits, UsbInfo,
};
use std::cell::{Cell, RefCell};
use std::rc::Rc;

struct FakePort {
    duplications: Rc<Cell<usize>>,
    written: Rc<RefCell<Vec<u8>>>,
    fail_duplicate: bool,
    fail_write: bool,
}

impl PortHandle for FakePort {
    fn open_port(path: &String, _config: &PortConfig) -> Result<Self, String> {
        if path.contains("missing") {
            return Err("no such device".to_string());
        }
        Ok(FakePort {
            duplications: Rc::new(Cell::new(0)),
            written: Rc::new(RefCell::new(Vec::new())),
            fail_duplicate: path.contains("unplugged"),
            fail_write: path.contains("broken"),
        })
    }

    fn duplicate(&self) -> Result<Self, String> {
        if self.fail_duplicate {
            return Err("device gone".to_string());
        }
        self.duplications.set(self.duplications.get() + 1);
        Ok(FakePort {
            duplications: self.duplications.clone(),
            written: self.written.clone(),
            fail_duplicate: false,
            fail_write: self.fail_write,
        })
    }

    fn write_bytes(&mut self, data: &[u8]) -> Result<usize, String> {
        if self.fail_write {
            return Err("broken pipe".to_string());
        }
        self.written.borrow_mut().extend_from_slice(data);
        Ok(data.len())
    }

    fn read_byte(&mut self) -> ByteRead {
        ByteRead::TimedOut
    }
}

fn config() -> PortConfig {
    PortConfig::from_options(9600, None, None, None, None, None)
}

fn opened(paths: &[&str]) -> Registry<FakePort> {
    let mut registry = init::<FakePort>();
    for p in paths {
        assert_eq!(open(&mut registry, p.to_string(), &config()), Ok(()));
    }
    registry
}

#[test]
fn open_twice_fails_already_open() {
    let mut registry = opened(&["/dev/ttyUSB0"]);
    let mut sig: Vec<String> = Vec::new();
    let mut notices = Vec::new();
    let task = read(&mut registry, "/dev/ttyUSB0".to_string(), None, None, &mut notices);
    assert!(matches!(task, Ok(Some(_))));
    let again = open(&mut registry, "/dev/ttyUSB0".to_string(), &config());
    assert_eq!(again, Err(PortError::AlreadyOpen("/dev/ttyUSB0".to_string())));
    assert_eq!(registry.len(), 1);
    assert!(registry.is_reading(&"/dev/ttyUSB0".to_string()));
    assert_eq!(registry.session(0).handle.duplications.get(), 1);
}

#[test]
fn open_failure_is_open_error() {
    let mut registry = init::<FakePort>();
    let r = open(&mut registry, "/dev/missing".to_string(), &config());
    assert_eq!(
        r,
        Err(PortError::OpenError("/dev/missing".to_string(), "no such device".to_string()))
    );
    assert_eq!(registry.len(), 0);
}

#[test]
fn close_absent_not_found_but_force_close_succeeds() {
    let mut registry = opened(&["/dev/ttyUSB0"]);
    let mut sig: Vec<String> = Vec::new();
    let r = close(&mut registry, "/dev/ttyUSB9".to_string(), &mut sig);
    assert_eq!(r, Err(PortError::NotFound("/dev/ttyUSB9".to_string())));
    assert_eq!(force_close(&mut registry, "/dev/ttyUSB9".to_string(), &mut sig), Ok(()));
    assert_eq!(registry.len(), 1);
    assert!(sig.is_empty());
}

#[test]
fn open_then_close_leaves_no_session() {
    let mut registry = opened(&["/dev/a", "/dev/b"]);
    let mut sig: Vec<String> = Vec::new();
    assert!(registry.is_open(&"/dev/a".to_string()));
    assert_eq!(close(&mut registry, "/dev/a".to_string(), &mut sig), Ok(()));
    assert!(!registry.is_open(&"/dev/a".to_string()));
    assert!(registry.is_open(&"/dev/b".to_string()));
    assert_eq!(force_close(&mut registry, "/dev/b".to_string(), &mut sig), Ok(()));
    assert_eq!(registry.len(), 0);
}

#[test]
fn close_signals_active_reader() {
    let mut registry = opened(&["/dev/a"]);
    let mut sig: Vec<String> = Vec::new();
    let mut notices = Vec::new();
    let task = read(&mut registry, "/dev/a".to_string(), None, None, &mut notices)
        .unwrap()
        .unwrap();
    assert_eq!(close(&mut registry, "/dev/a".to_string(), &mut sig), Ok(()));
    assert_eq!(task.cancel.try_recv(), Ok(1));
    assert_eq!(sig, vec!["/dev/a".to_string()]);
}

#[test]
fn second_read_duplicates_once() {
    let mut registry = opened(&["/dev/ttyACM0"]);
    let mut sig: Vec<String> = Vec::new();
    let mut notices = Vec::new();
    let first = read(&mut registry, "/dev/ttyACM0".to_string(), Some(100), Some(64), &mut notices);
    assert!(matches!(first, Ok(Some(_))));
    let second = read(&mut registry, "/dev/ttyACM0".to_string(), None, None, &mut notices);
    assert!(matches!(second, Ok(None)));
    assert_eq!(registry.session(0).handle.duplications.get(), 1);
    assert!(notices.is_empty());
}

#[test]
fn read_after_cancel_duplicates_again() {
    let mut registry = opened(&["/dev/ttyACM0"]);
    let mut sig: Vec<String> = Vec::new();
    let mut notices = Vec::new();
    let task = read(&mut registry, "/dev/ttyACM0".to_string(), None, None, &mut notices)
        .unwrap()
        .unwrap();
    assert_eq!(cancel_read(&mut registry, "/dev/ttyACM0".to_string(), &mut sig), Ok(()));
    assert_eq!(task.cancel.try_recv(), Ok(1));
    assert_eq!(sig, vec!["/dev/ttyACM0".to_string()]);
    assert_eq!(cancel_read(&mut registry, "/dev/ttyACM0".to_string(), &mut sig), Ok(()));
    assert_eq!(sig.len(), 1);
    assert!(!registry.is_reading(&"/dev/ttyACM0".to_string()));
    assert!(matches!(
        read(&mut registry, "/dev/ttyACM0".to_string(), None, None, &mut notices),
        Ok(Some(_))
    ));
    assert_eq!(registry.session(0).handle.duplications.get(), 2);
}

#[test]
fn cancel_read_without_reader_and_missing_port() {
    let mut registry = opened(&["/dev/a"]);
    let mut sig: Vec<String> = Vec::new();
    assert_eq!(cancel_read(&mut registry, "/dev/a".to_string(), &mut sig), Ok(()));
    assert_eq!(
        cancel_read(&mut registry, "/dev/z".to_string(), &mut sig),
        Err(PortError::NotFound("/dev/z".to_string()))
    );
    assert!(sig.is_empty());
}

#[test]
fn read_missing_port_not_found() {
    let mut registry = init::<FakePort>();
    let mut notices = Vec::new();
    let r = read(&mut registry, "/dev/a".to_string(), None, None, &mut notices);
    assert!(matches!(r, Err(PortError::NotFound(p)) if p == "/dev/a"));
    assert!(notices.is_empty());
}

#[test]
fn failed_duplicate_reports_disconnect() {
    let mut registry = opened(&["/dev/unplugged"]);
    let mut sig: Vec<String> = Vec::new();
    let mut notices = Vec::new();
    let r = read(&mut registry, "/dev/unplugged".to_string(), None, None, &mut notices);
    assert!(matches!(r, Err(PortError::CloneError(p, _)) if p == "/dev/unplugged"));
    assert_eq!(notices, vec![Notice::Disconnected("/dev/unplugged".to_string())]);
    assert!(!registry.is_reading(&"/dev/unplugged".to_string()));
}

#[test]
fn engine_frames_two_messages() {
    let mut engine = ReaderEngine::new();
    let mut messages = Vec::new();
    for b in "ab\ncd\n".bytes() {
        assert!(engine.on_poll(CancelPoll::Quiet));
        if let Some(m) = engine.on_read(ByteRead::Byte(b)) {
            messages.push(m);
        }
    }
    assert_eq!(messages.len(), 2);
    assert_eq!(messages[0].data, b"ab\n".to_vec());
    assert_eq!(messages[0].size, 3);
    assert_eq!(messages[1].data, b"cd\n".to_vec());
    assert_eq!(messages[1].size, 3);
    assert!(engine.pending_bytes().is_empty());
}

#[test]
fn engine_timeout_changes_nothing() {
    let mut engine = ReaderEngine::new();
    assert_eq!(engine.on_read(ByteRead::Byte(b'x')), None);
    assert_eq!(engine.on_read(ByteRead::TimedOut), None);
    assert_eq!(engine.pending_bytes(), &vec![b'x']);
    assert_eq!(engine.state(), ReaderState::Running);
    assert!(engine.on_poll(CancelPoll::Quiet));
    assert!(engine.on_read(ByteRead::Byte(b'\n')).is_some());
}

#[test]
fn engine_cancel_stops_emitting() {
    let mut engine = ReaderEngine::new();
    assert_eq!(engine.on_read(ByteRead::Byte(b'a')), None);
    assert!(!engine.on_poll(CancelPoll::Signalled));
    assert_eq!(engine.state(), ReaderState::Cancelled);
    assert_eq!(engine.on_read(ByteRead::Byte(b'\n')), None);
    assert!(!engine.on_poll(CancelPoll::Quiet));
}

#[test]
fn engine_closed_channel_cancels() {
    let mut engine = ReaderEngine::new();
    assert!(!engine.on_poll(CancelPoll::ChannelClosed));
    assert_eq!(engine.state(), ReaderState::Cancelled);
}

#[test]
fn engine_fault_stops() {
    let mut engine = ReaderEngine::new();
    assert_eq!(engine.on_read(ByteRead::Failed("gone".to_string())), None);
    assert_eq!(engine.state(), ReaderState::IoError);
    assert_eq!(engine.on_read(ByteRead::Byte(b'\n')), None);
}

#[test]
fn close_all_with_crashed_reader() {
    let mut registry = opened(&["/dev/a", "/dev/b"]);
    let mut sig: Vec<String> = Vec::new();
    let mut notices = Vec::new();
    let task = read(&mut registry, "/dev/a".to_string(), None, None, &mut notices)
        .unwrap()
        .unwrap();
    drop(task);
    assert_eq!(close_all(&mut registry, &mut sig), Ok(()));
    assert_eq!(registry.len(), 0);
    assert_eq!(sig, vec!["/dev/a".to_string()]);
}

#[test]
fn close_all_with_live_reader_empties() {
    let mut registry = opened(&["/dev/a", "/dev/b"]);
    let mut sig: Vec<String> = Vec::new();
    let mut notices = Vec::new();
    let task = read(&mut registry, "/dev/b".to_string(), None, None, &mut notices)
        .unwrap()
        .unwrap();
    assert_eq!(close_all(&mut registry, &mut sig), Ok(()));
    assert_eq!(registry.len(), 0);
    assert_eq!(task.cancel.try_recv(), Ok(1));
    assert_eq!(sig, vec!["/dev/b".to_string()]);
}

#[test]
fn write_failure_reports_disconnect() {
    let mut registry = opened(&["/dev/broken"]);
    let mut sig: Vec<String> = Vec::new();
    let mut notices = Vec::new();
    let r = serial_ports::commands::write(&mut registry, "/dev/broken".to_string(), "hi".to_string(), &mut notices);
    assert_eq!(
        r,
        Err(PortError::WriteError("/dev/broken".to_string(), "broken pipe".to_string()))
    );
    assert_eq!(notices, vec![Notice::Disconnected("/dev/broken".to_string())]);
    let r = write_binary(&mut registry, "/dev/broken".to_string(), vec![1, 2], &mut notices);
    assert!(matches!(r, Err(PortError::WriteError(_, _))));
    assert_eq!(notices.len(), 2);
}

#[test]
fn write_sends_bytes() {
    let mut registry = opened(&["/dev/a"]);
    let mut sig: Vec<String> = Vec::new();
    let mut notices = Vec::new();
    assert_eq!(serial_ports::commands::write(&mut registry, "/dev/a".to_string(), "hey\n".to_string(), &mut notices), Ok(4));
    assert_eq!(write_binary(&mut registry, "/dev/a".to_string(), vec![0, 255], &mut notices), Ok(2));
    assert_eq!(*registry.session(0).handle.written.borrow(), vec![b'h', b'e', b'y', b'\n', 0, 255]);
    assert!(notices.is_empty());
    assert_eq!(
        serial_ports::commands::write(&mut registry, "/dev/b".to_string(), "x".to_string(), &mut notices),
        Err(PortError::NotFound("/dev/b".to_string()))
    );
}

fn usb(name: &str, vid: u16) -> PortListing {
    PortListing {
        port_name: name.to_string(),
        port_type: PortKind::Usb(UsbInfo {
            vid,
            pid: 24577,
            serial_number: Some("A1".to_string()),
            manufacturer: None,
            product: Some("FT232R".to_string()),
        }),
    }
}

#[test]
fn available_ports_sorted_usb_only() {
    let listing = vec![
        usb("/dev/ttyUSB1", 1027),
        PortListing { port_name: "/dev/rfcomm0".to_string(), port_type: PortKind::Bluetooth },
        usb("/dev/ttyACM0", 9025),
        PortListing { port_name: "/dev/ttyS0".to_string(), port_type: PortKind::Pci },
        usb("/dev/ttyUSB0", 1027),
        PortListing { port_name: "/dev/ttyX".to_string(), port_type: PortKind::Unknown },
    ];
    let ports = available_ports(Ok(listing));
    let names: Vec<&str> = ports.iter().map(|p| p.0.as_str()).collect();
    assert_eq!(names, vec!["/dev/ttyACM0", "/dev/ttyUSB0", "/dev/ttyUSB1"]);
    assert_eq!(ports[0].1.vid, "9025");
    assert_eq!(ports[1].1.kind, "USB");
}

#[test]
fn available_ports_enumeration_error_is_empty() {
    assert!(available_ports(Err("denied".to_string())).is_empty());
}

#[test]
fn usb_descriptor_fields() {
    let d = get_port_info(&usb("/dev/ttyUSB0", 1027).port_type);
    assert_eq!(
        d,
        PortDescriptor {
            kind: "USB".to_string(),
            vid: "1027".to_string(),
            pid: "24577".to_string(),
            serial_number: "A1".to_string(),
            manufacturer: "Unknown".to_string(),
            product: "FT232R".to_string(),
        }
    );
}

#[test]
fn other_descriptors_are_unknown() {
    let b = get_port_info(&PortKind::Bluetooth);
    assert_eq!(b.kind, "Bluetooth");
    assert_eq!(b.vid, "Unknown");
    assert_eq!(get_port_info(&PortKind::Pci).kind, "PCI");
    let u = get_port_info(&PortKind::Unknown);
    assert_eq!(u.kind, "Unknown");
    assert_eq!(u.product, "Unknown");
    let z = get_port_info(&PortKind::Usb(UsbInfo {
        vid: 0,
        pid: 65535,
        serial_number: None,
        manufacturer: None,
        product: None,
    }));
    assert_eq!(z.vid, "0");
    assert_eq!(z.pid, "65535");
    assert_eq!(z.serial_number, "Unknown");
}

#[test]
fn config_decoding_defaults() {
    assert_eq!(get_data_bits(None), DataBits::Eight);
    assert_eq!(get_data_bits(Some(5)), DataBits::Five);
    assert_eq!(get_data_bits(Some(6)), DataBits::Six);
    assert_eq!(get_data_bits(Some(7)), DataBits::Seven);
    assert_eq!(get_data_bits(Some(9)), DataBits::Eight);
    assert_eq!(get_flow_control(Some("Hardware".to_string())), FlowControl::Hardware);
    assert_eq!(get_flow_control(Some("Software".to_string())), FlowControl::Software);
    assert_eq!(get_flow_control(Some("hardware".to_string())), FlowControl::NoFlowControl);
    assert_eq!(get_flow_control(None), FlowControl::NoFlowControl);
    assert_eq!(get_parity(Some("Odd".to_string())), Parity::Odd);
    assert_eq!(get_parity(Some("Even".to_string())), Parity::Even);
    assert_eq!(get_parity(Some("Mark".to_string())), Parity::NoParity);
    assert_eq!(get_stop_bits(Some(1)), StopBits::One);
    assert_eq!(get_stop_bits(Some(3)), StopBits::Two);
    assert_eq!(get_stop_bits(None), StopBits::Two);
}

#[test]
fn config_from_options() {
    let c = PortConfig::from_options(115200, Some(7), None, Some("Even".to_string()), Some(1), Some(50));
    assert_eq!(c.baud_rate, 115200);
    assert_eq!(c.data_bits, DataBits::Seven);
    assert_eq!(c.parity, Parity::Even);
    assert_eq!(c.stop_bits, StopBits::One);
    assert_eq!(c.timeout_ms, 50);
    assert_eq!(config().timeout_ms, 200);
    assert_eq!(config().stop_bits, StopBits::Two);
}

#[test]
fn register_opened_outcomes() {
    let mut registry = init::<FakePort>();
    let handle = FakePort::open_port(&"/dev/a".to_string(), &config()).unwrap();
    assert_eq!(register_opened(&mut registry, "/dev/a".to_string(), Ok(handle)), Ok(()));
    assert!(registry.is_open(&"/dev/a".to_string()));
    assert!(!registry.is_reading(&"/dev/a".to_string()));
    let r = register_opened::<FakePort>(&mut registry, "/dev/b".to_string(), Err("busy".to_string()));
    assert_eq!(r, Err(PortError::OpenError("/dev/b".to_string(), "busy".to_string())));
    assert_eq!(registry.len(), 1);
}

#[test]
fn start_reader_outcomes() {
    let mut registry = opened(&["/dev/a", "/dev/b"]);
    let mut sig: Vec<String> = Vec::new();
    let mut notices = Vec::new();
    let r = start_reader(&mut registry, "/dev/b".to_string(), Err("gone".to_string()), &mut notices);
    assert!(matches!(r, Err(PortError::CloneError(p, c)) if p == "/dev/b" && c == "gone"));
    assert_eq!(notices, vec![Notice::Disconnected("/dev/b".to_string())]);
    assert!(!registry.is_reading(&"/dev/b".to_string()));
    let dup = registry.session(1).handle.duplicate().unwrap();
    let task = start_reader(&mut registry, "/dev/b".to_string(), Ok(dup), &mut notices)
        .unwrap()
        .unwrap();
    assert_eq!(task.path, "/dev/b");
    assert_eq!(task.engine.state(), ReaderState::Running);
    assert!(registry.is_reading(&"/dev/b".to_string()));
    assert!(!registry.is_reading(&"/dev/a".to_string()));
    assert_eq!(notices.len(), 1);
}

#[test]
fn finish_write_outcomes() {
    let mut notices = Vec::new();
    assert_eq!(finish_write("/dev/a".to_string(), Ok(7), &mut notices), Ok(7));
    assert!(notices.is_empty());
    assert_eq!(
        finish_write("/dev/a".to_string(), Err("eio".to_string()), &mut notices),
        Err(PortError::WriteError("/dev/a".to_string(), "eio".to_string()))
    );
    assert_eq!(notices, vec![Notice::Disconnected("/dev/a".to_string())]);
}

#[test]
fn available_ports_lists_each_usb_once() {
    let listing = vec![
        usb("COM3", 1),
        PortListing { port_name: "COM1".to_string(), port_type: PortKind::Pci },
        usb("COM2", 2),
        PortListing { port_name: "COM0".to_string(), port_type: PortKind::Bluetooth },
    ];
    let ports = available_ports(Ok(listing));
    let names: Vec<&str> = ports.iter().map(|p| p.0.as_str()).collect();
    assert_eq!(names, vec!["COM2", "COM3"]);
}
