use thermal_core::cli::{option_string, option_usize, printable, select_device, SelectError};
use thermal_core::device::{com_from_name, field, vid_pid, wide_z, Device};
use thermal_core::discovery::{port_from_list, probe_device_from_properties, tool_device_from_properties};
use thermal_core::discovery::{
    detail_size_ok, detail_words, device_from_properties, device_name, discover_printers, path_units,
    property_units, ActiveTransport,
};
use thermal_core::number::{parse_usize, u32_decimal};
use thermal_core::probe::ids;

fn dev(transport: &str, name: &str, path: &str, instance: &str, hardware: &str, port: Option<&str>) -> Device {
    Device {
        transport: transport.to_string(),
        name: name.to_string(),
        path: path.to_string(),
        instance: instance.to_string(),
        hardware: hardware.to_string(),
        port: port.map(|p| p.to_string()),
    }
}

#[test]
fn com_port_from_friendly_name() {
    assert_eq!(com_from_name("USB Serial Device (COM3)"), Some("COM3".to_string()));
    assert_eq!(com_from_name("Standard Serial over Bluetooth link (COM12)"), Some("COM12".to_string()));
    assert_eq!(com_from_name("Printer (COM)"), None);
    assert_eq!(com_from_name("Printer (COMx1)"), None);
    assert_eq!(com_from_name("Printer (COM4"), None);
    assert_eq!(com_from_name("no port here"), None);
    // the last "(COM" wins
    assert_eq!(com_from_name("A (COM1) B (COM22)"), Some("COM22".to_string()));
    assert_eq!(com_from_name("A (COM1) B (COMX)"), None);
}

#[test]
fn hex_field_after_tag() {
    assert_eq!(field("USB\\VID_0fe6&PID_811e\\5&1", "VID_"), Some("0FE6".to_string()));
    assert_eq!(field("USB\\VID_0fe6&PID_811e\\5&1", "PID_"), Some("811E".to_string()));
    assert_eq!(field("usb\\vid_12", "VID_"), None);
    assert_eq!(field("nothing", "VID_"), None);
    assert_eq!(field("VID_12G4", "VID_"), None);
    assert_eq!(field("VID_ABCDE", "VID_"), Some("ABCD".to_string()));
}

#[test]
fn vendor_and_product_ids() {
    let d = dev("USB Printer Class", "POS58", "\\\\?\\usb#vid_6868&pid_0200#1", "USB\\VID_6868&PID_0200\\1", "", None);
    assert_eq!(vid_pid(&d), (Some("6868".to_string()), Some("0200".to_string())));
    let e = dev("COM", "x", "", "", "", None);
    assert_eq!(vid_pid(&e), (None, None));
}

#[test]
fn wide_string_stops_at_nul() {
    let units: Vec<u16> = "COM7".encode_utf16().chain([0u16, 65, 66]).collect();
    assert_eq!(wide_z(&units), "COM7");
    let no_nul: Vec<u16> = "Olá".encode_utf16().collect();
    assert_eq!(wide_z(&no_nul), "Olá");
    assert_eq!(wide_z(&[0, 65]), "");
    assert_eq!(wide_z(&[0xd800, 0]), "\u{fffd}");
    assert_eq!(wide_z(&[0xd834, 0xdd1e, 0x6d, 0xd800, 0x69, 0xdd1e, 0]), "\u{1d11e}m\u{fffd}i\u{fffd}");
}

#[test]
fn enumeration_variants() {
    let d = tool_device_from_properties("COM", "printer".to_string(), "usb#bthenum#1".to_string(), "i".to_string(), "h".to_string());
    assert_eq!(d.transport, "COM");
    let ports = vec!["COM1".to_string(), "com9".to_string()];
    assert_eq!(port_from_list(&ports, "COM9"), Some("com9".to_string()));
    assert_eq!(port_from_list(&ports, "COM2"), None);
    let d = probe_device_from_properties("COM", "com9".to_string(), "p".to_string(), "BTHENUM".to_string(), "h".to_string(), &ports);
    assert_eq!(d.transport, "COM");
    assert_eq!(d.port, Some("com9".to_string()));
    let d = probe_device_from_properties("COM", "Serial (COM4)".to_string(), "p".to_string(), "i".to_string(), "h".to_string(), &ports);
    assert_eq!(d.port, Some("COM4".to_string()));
    let d = probe_device_from_properties("USB Printer Class", "COM1".to_string(), "p".to_string(), "i".to_string(), "h".to_string(), &ports);
    assert_eq!(d.port, None);
}

#[test]
fn enumeration_helpers() {
    assert!(!detail_size_ok(5));
    assert!(detail_size_ok(6));
    assert!(detail_size_ok(65536));
    assert!(!detail_size_ok(65537));
    assert_eq!(detail_words(9), 2);
    assert_eq!(detail_words(16), 2);
    assert_eq!(path_units(10), 3);
    assert_eq!(property_units(100), 50);
    assert_eq!(property_units(9000), 2048);
}

#[test]
fn device_records_from_properties() {
    let d = device_from_properties("COM", "Standard Serial over Bluetooth link (COM6)".to_string(), "p".to_string(), "BTHENUM\\{x}".to_string(), "BTHENUM\\{y}".to_string());
    assert_eq!(d.transport, "Bluetooth (COM)");
    assert_eq!(d.port, Some("COM6".to_string()));
    let d = device_from_properties("COM", "USB-SERIAL CH340 (COM3)".to_string(), "p".to_string(), "USB\\VID_1A86".to_string(), "USB\\VID_1A86&PID_7523".to_string());
    assert_eq!(d.transport, "COM");
    assert_eq!(d.port, Some("COM3".to_string()));
    let d = device_from_properties("USB Printer Class", "POS58 (COM9)".to_string(), "p".to_string(), "BTHENUM".to_string(), "h".to_string());
    assert_eq!(d.transport, "USB Printer Class");
    assert_eq!(d.port, None);
    let d = device_from_properties("COM", "printer".to_string(), "usb#bthenum#1".to_string(), "i".to_string(), "h".to_string());
    assert_eq!(d.transport, "Bluetooth (COM)");
    assert_eq!(d.port, None);
}

#[test]
fn printers_among_devices() {
    let devices = vec![
        dev("USB Printer Class", "POS58 Printer", "\\\\?\\usb#1", "i", "h", None),
        dev("Bluetooth (COM)", "Serial padrão por link Bluetooth (COM5)", "p", "BTHENUM", "BTHENUM\\DC0D51597B0C", Some("COM5")),
        dev("Bluetooth (COM)", "Headset (COM8)", "p", "BTHENUM", "BTHENUM\\1234", Some("COM8")),
        dev("COM", "USB Serial (COM3)", "p", "i", "h", Some("COM3")),
        dev("COM", "Modem", "p", "i", "h", None),
        dev("USB device (inventory only)", "Mouse", "p", "i", "h", None),
        dev("Bluetooth (COM)", "MPT-II (COM9)", "p", "i", "h", Some("COM9")),
    ];
    let printers = discover_printers(&devices);
    assert_eq!(printers.len(), 4);
    assert_eq!(printers[0].name, "POS58 Printer");
    assert_eq!(printers[0].display_info, "USB: POS58 Printer");
    assert!(matches!(&printers[0].transport, ActiveTransport::Usb(p) if p == "\\\\?\\usb#1"));
    assert_eq!(printers[1].name, "TECH CLA58 / MPT-II");
    assert_eq!(printers[1].display_info, "Bluetooth: TECH CLA58 / MPT-II (COM5)");
    assert!(printers[1].is_bluetooth);
    assert!(matches!(&printers[1].transport, ActiveTransport::Com { port, baud: 9600, is_bluetooth: true } if port == "COM5"));
    assert_eq!(printers[2].display_info, "Serial COM: USB Serial (COM3) (COM3)");
    assert!(!printers[2].is_bluetooth);
    assert_eq!(printers[2].port, Some("COM3".to_string()));
    assert_eq!(printers[3].name, "MPT-II (COM9)");
    for p in &printers {
        match &p.transport {
            ActiveTransport::Usb(_) => assert!(!p.is_bluetooth && p.port.is_none()),
            ActiveTransport::Com { port, baud, is_bluetooth } => {
                assert_eq!(*baud, 9600);
                assert_eq!(*is_bluetooth, p.is_bluetooth);
                assert_eq!(p.port.as_deref(), Some(port.as_str()));
            }
        }
    }
    assert_eq!(printers[3].display_info, "Bluetooth: MPT-II (COM9) (COM9)");
}

#[test]
fn command_line_options() {
    let args: Vec<String> = ["probe", "--device", "2", "--width", "x", "--baud", "+19200", "--last"]
        .iter()
        .map(|s| s.to_string())
        .collect();
    assert_eq!(option_string(&args, "--device"), Some("2".to_string()));
    assert_eq!(option_string(&args, "--last"), None);
    assert_eq!(option_string(&args, "--output"), None);
    assert_eq!(option_usize(&args, "--device"), Some(2));
    assert_eq!(option_usize(&args, "--width"), None);
    assert_eq!(option_usize(&args, "--baud"), Some(19200));
}

#[test]
fn decimal_numbers() {
    assert_eq!(parse_usize("384"), Some(384));
    assert_eq!(parse_usize("+7"), Some(7));
    assert_eq!(parse_usize("+"), None);
    assert_eq!(parse_usize(""), None);
    assert_eq!(parse_usize("-1"), None);
    assert_eq!(parse_usize(" 1"), None);
    assert_eq!(parse_usize("007"), Some(7));
    assert_eq!(parse_usize("99999999999999999999999999"), None);
    assert_eq!(u32_decimal(0), "0");
    assert_eq!(u32_decimal(384), "384");
    assert_eq!(u32_decimal(u32::MAX), "4294967295");
    for n in [0u32, 1, 9, 10, 576, 4096, 65535, u32::MAX] {
        assert_eq!(parse_usize(&u32_decimal(n)), Some(n as usize));
    }
}

#[test]
fn choosing_a_device() {
    let devices = vec![
        dev("USB Printer Class", "A", "p", "i", "h", None),
        dev("COM", "B", "p", "i", "h", None),
        dev("Bluetooth (COM)", "C", "p", "i", "h", Some("COM4")),
        dev("USB device (inventory only)", "D", "p", "i", "h", None),
    ];
    assert!(printable(&devices[0]));
    assert!(!printable(&devices[1]));
    assert!(printable(&devices[2]));
    assert!(!printable(&devices[3]));
    assert_eq!(select_device(&devices, 0).err(), Some(SelectError::StartsAtOne));
    assert_eq!(select_device(&devices, 5).err(), Some(SelectError::InvalidNumber));
    assert_eq!(select_device(&devices, 2).err(), Some(SelectError::NotPrintable));
    assert_eq!(select_device(&devices, 3).ok().map(|d| d.name), Some("C".to_string()));
    assert_eq!(SelectError::StartsAtOne.message(), "device number starts at 1");
}

#[test]
fn id_summary() {
    assert_eq!(ids("usb\\vid_6868&pid_0200\\5"), "VID_6868 PID_0200");
    assert_eq!(ids("PID_12"), "PID_12");
    assert_eq!(ids("none"), "");
    assert_eq!(ids("vid_0fe6"), "VID_0FE6");
}

#[test]
fn shown_device_names() {
    assert_eq!(device_name("POS-58 (COM4)".to_string(), "Serial".to_string()), "POS-58 (COM4)");
    assert_eq!(device_name(String::new(), "USB Printing Support".to_string()), "USB Printing Support");
    assert_eq!(device_name(String::new(), String::new()), "");
}
