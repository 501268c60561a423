use thermal_core::backend::{
    job_code_page, job_transport, job_width, printer_dto, raster_print_job, service_transport,
    text_print_job, PrintJobRequest,
};
use thermal_core::device::Device;
use thermal_core::discovery::{ActiveTransport, DiscoveredPrinter};
use thermal_core::profile::{
    default_baud, default_code_page, default_profile_path, device_for_profile, profile_for_device,
    safe_name, usb_profile_accepts, PrinterProfile, TransportProfile,
};

fn dev(transport: &str, name: &str, instance: &str, port: Option<&str>) -> Device {
    Device {
        transport: transport.to_string(),
        name: name.to_string(),
        path: "path".to_string(),
        instance: instance.to_string(),
        hardware: "hw".to_string(),
        port: port.map(|p| p.to_string()),
    }
}

fn profile(kind: &str, vid: Option<&str>, pid: Option<&str>, port: Option<&str>) -> PrinterProfile {
    PrinterProfile {
        id: "p".to_string(),
        name: "n".to_string(),
        transport: TransportProfile {
            kind: kind.to_string(),
            vid: vid.map(|s| s.to_string()),
            pid: pid.map(|s| s.to_string()),
            port: port.map(|s| s.to_string()),
        },
        protocol: "escpos".to_string(),
        raster_mode: "gs-v-0".to_string(),
        printable_width_dots: 384,
        baud: default_baud(),
        code_page: default_code_page(),
    }
}

#[test]
fn defaults() {
    assert_eq!(default_baud(), 9600);
    assert_eq!(default_code_page(), 3);
}

#[test]
fn profile_selects_device() {
    let ds = vec![
        dev("COM", "serial", "USB\\VID_1A86&PID_7523", Some("COM3")),
        dev("USB Printer Class", "usb", "USB\\VID_0FE6&PID_811E\\1", None),
        dev("Bluetooth (COM)", "bt", "BTHENUM", Some("COM6")),
    ];
    let p = profile("usb-printer-class", Some("0fe6"), Some("811e"), None);
    assert_eq!(device_for_profile(&p, &ds).ok().map(|d| d.name), Some("usb".to_string()));
    let p = profile("bluetooth", None, None, Some("com6"));
    assert_eq!(device_for_profile(&p, &ds).ok().map(|d| d.name), Some("bt".to_string()));
    let p = profile("com", None, None, None);
    assert_eq!(device_for_profile(&p, &ds).ok().map(|d| d.name), Some("serial".to_string()));
    let p = profile("usb-printer-class", Some("1234"), None, None);
    assert!(device_for_profile(&p, &ds).is_err());
    let p = profile("network", None, None, None);
    let err = device_for_profile(&p, &ds).err().unwrap();
    assert_eq!(err.message(), "no connected device matches this profile");
}

#[test]
fn desktop_usb_check() {
    let t = profile("usb-printer-class", Some("0FE6"), None, None).transport;
    assert!(usb_profile_accepts(&t, "USB\\VID_0fe6&PID_811e"));
    assert!(!usb_profile_accepts(&t, "USB\\VID_1111&PID_811e"));
    let c = profile("com", None, None, None).transport;
    assert!(!usb_profile_accepts(&c, "USB\\VID_0fe6"));
}

#[test]
fn new_profiles() {
    let d = dev("Bluetooth (COM)", "MPT-II Printer", "BTHENUM\\VID_ABCD", Some("COM7"));
    let p = profile_for_device(&d, None, None, None, None);
    assert_eq!(p.id, "generic-mpt-ii-printer-raster");
    assert_eq!(p.name, "MPT-II Printer");
    assert_eq!(p.transport.kind, "com");
    let others = vec![dev("COM", "serial", "i", Some("COM3")), d.clone()];
    assert_eq!(device_for_profile(&p, &others).ok().map(|x| x.name), Some("MPT-II Printer".to_string()));
    assert_eq!(p.transport.vid, Some("ABCD".to_string()));
    assert_eq!(p.transport.pid, None);
    assert_eq!(p.transport.port, Some("COM7".to_string()));
    assert_eq!((p.printable_width_dots, p.baud, p.code_page), (384, 9600, 3));
    assert_eq!(p.protocol, "escpos");
    assert_eq!(p.raster_mode, "gs-v-0");
    let q = profile_for_device(&dev("USB Printer Class", "X", "i", None), Some("mine".to_string()), Some(576), Some(115200), Some(259));
    assert_eq!(q.id, "mine");
    assert_eq!(q.transport.kind, "usb-printer-class");
    assert_eq!((q.printable_width_dots, q.baud, q.code_page), (576, 115200, 3));
    assert_eq!(profile_for_device(&dev("COM", "s", "i", None), None, None, None, None).transport.kind, "com");
    assert_eq!(default_profile_path(&d), "profiles/mpt-ii-printer-ABCD.json");
    assert_eq!(default_profile_path(&dev("COM", "Ação 1", "", None)), "profiles/a--o-1-device.json");
    assert_eq!(safe_name("ÀB c"), "-b-c");
    assert_eq!(safe_name(&safe_name("Tech CLA58")), safe_name("Tech CLA58"));
}

fn request(kind: &str, param: &str) -> PrintJobRequest {
    PrintJobRequest {
        file_path: None,
        direct_text: None,
        target_transport: kind.to_string(),
        target_param: param.to_string(),
        baud: None,
        code_page: None,
        width_dots: None,
    }
}

#[test]
fn front_end_requests() {
    let r = request("com", "COM5");
    assert!(matches!(job_transport(&r), Some(ActiveTransport::Com { ref port, baud: 9600, is_bluetooth: true }) if port == "COM5"));
    let mut r = request("com", "/dev/ttyS0");
    r.baud = Some(19200);
    assert!(matches!(job_transport(&r), Some(ActiveTransport::Com { baud: 19200, is_bluetooth: false, .. })));
    assert!(matches!(job_transport(&request("usb", "\\\\?\\usb")), Some(ActiveTransport::Usb(_))));
    assert!(job_transport(&request("lpt", "x")).is_none());
    assert_eq!((job_width(&r), job_code_page(&r)), (384, 3));
    assert!(matches!(service_transport("bluetooth", "COM9".to_string()), Some(ActiveTransport::Com { baud: 9600, is_bluetooth: true, .. })));
    assert!(service_transport("x", "y".to_string()).is_none());
    assert_eq!(text_print_job(3, "é"), vec![0x1b, b'@', 0x1b, b't', 3, 0x82, b'\n', 0x1b, b'd', 4, b'\n']);
    assert_eq!(raster_print_job(&vec![vec![1, 2], vec![3]]), vec![0x1b, b'@', 1, 2, 3, 0x1b, b'd', 4, b'\n']);
    let p = DiscoveredPrinter {
        name: "P".to_string(),
        transport: ActiveTransport::Com { port: "COM2".to_string(), baud: 9600, is_bluetooth: false },
        display_info: "Serial COM: P (COM2)".to_string(),
        is_bluetooth: false,
        port: Some("COM2".to_string()),
    };
    let d = printer_dto(&p);
    assert_eq!((d.transport_type.as_str(), d.target.as_str()), ("com", "COM2"));
    assert_eq!(d.display_info, "Serial COM: P (COM2)");
}
