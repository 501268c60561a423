//! Classification of the enumerated devices: which transport an interface
//! uses and which interfaces are thermal printers.

use vstd::prelude::*;
use vstd::string::StringExecFns;
use crate::device::{com_from_name, com_port_of, clone_opt, opt_view, Device, DeviceView};
use crate::text::{
    ascii_uppercase, contains_seq, eq_ignore_case, join2, owned, str_contains, str_eq,
    str_eq_ignore_case, str_starts_with, upper_seq,
};

verus! {

/// How print data reaches a printer.
pub enum ActiveTransport {
    /// A USB Printer Class device path.
    Usb(String),
    /// A serial port (wired or Bluetooth SPP).
    Com { port: String, baud: u32, is_bluetooth: bool },
}

pub enum TransportView {
    Usb(Seq<char>),
    Com { port: Seq<char>, baud: u32, is_bluetooth: bool },
}

impl View for ActiveTransport {
    type V = TransportView;

    open spec fn view(&self) -> TransportView {
        match self {
            ActiveTransport::Usb(p) => TransportView::Usb(p@),
            ActiveTransport::Com { port, baud, is_bluetooth } => TransportView::Com {
                port: port@,
                baud: *baud,
                is_bluetooth: *is_bluetooth,
            },
        }
    }
}

impl Clone for ActiveTransport {
    fn clone(&self) -> (r: ActiveTransport)
        ensures
            r@ == self@,
    {
        match self {
            ActiveTransport::Usb(p) => ActiveTransport::Usb(p.clone()),
            ActiveTransport::Com { port, baud, is_bluetooth } => ActiveTransport::Com {
                port: port.clone(),
                baud: *baud,
                is_bluetooth: *is_bluetooth,
            },
        }
    }
}

/// A printer that print data can be sent to.
pub struct DiscoveredPrinter {
    pub name: String,
    pub transport: ActiveTransport,
    pub display_info: String,
    pub is_bluetooth: bool,
    pub port: Option<String>,
}

pub struct PrinterView {
    pub name: Seq<char>,
    pub transport: TransportView,
    pub display_info: Seq<char>,
    pub is_bluetooth: bool,
    pub port: Option<Seq<char>>,
}

impl View for DiscoveredPrinter {
    type V = PrinterView;

    open spec fn view(&self) -> PrinterView {
        PrinterView {
            name: self.name@,
            transport: self.transport@,
            display_info: self.display_info@,
            is_bluetooth: self.is_bluetooth,
            port: opt_view(self.port),
        }
    }
}

impl Clone for DiscoveredPrinter {
    fn clone(&self) -> (r: DiscoveredPrinter)
        ensures
            r@ == self@,
    {
        DiscoveredPrinter {
            name: self.name.clone(),
            transport: self.transport.clone(),
            display_info: self.display_info.clone(),
            is_bluetooth: self.is_bluetooth,
            port: clone_opt(&self.port),
        }
    }
}

/// `s` contains `pat` after ASCII upper-casing.
pub open spec fn mentions(s: Seq<char>, pat: Seq<char>) -> bool {
    contains_seq(upper_seq(s), pat)
}

/// The interface's ids or name show a Bluetooth serial link; the device
/// path counts when `path_counts`.
pub open spec fn bluetooth_link(
    name: Seq<char>,
    path: Seq<char>,
    instance: Seq<char>,
    hardware: Seq<char>,
    path_counts: bool,
) -> bool {
    mentions(hardware, "BTHENUM"@) || mentions(hardware, "BTH\\"@) || (path_counts && mentions(
        path,
        "BTHENUM"@,
    )) || mentions(instance, "BTHENUM"@) || mentions(name, "BLUETOOTH"@)
}

/// A device interface as enumerated for a device class labelled
/// `base_transport`: a COM interface is marked `"Bluetooth (COM)"` when its
/// ids or name show a Bluetooth serial link, and gets the port from its name.
pub open spec fn classified_device(
    base_transport: Seq<char>,
    name: Seq<char>,
    path: Seq<char>,
    instance: Seq<char>,
    hardware: Seq<char>,
    path_counts: bool,
) -> DeviceView {
    let is_com = base_transport == "COM"@;
    let is_bt = is_com && bluetooth_link(name, path, instance, hardware, path_counts);
    DeviceView {
        transport: if is_bt {
            "Bluetooth (COM)"@
        } else {
            base_transport
        },
        name,
        path,
        instance,
        hardware,
        port: if is_com {
            com_port_of(name)
        } else {
            None
        },
    }
}

fn upper_contains(s: &str, pat: &str) -> (b: bool)
    ensures
        b == mentions(s@, pat@),
{
    let up = ascii_uppercase(s);
    str_contains(up.as_str(), pat)
}

fn classify(
    base_transport: &str,
    name: String,
    path: String,
    instance: String,
    hardware: String,
    path_counts: bool,
) -> (d: Device)
    ensures
        d@ == classified_device(base_transport@, name@, path@, instance@, hardware@, path_counts),
{
    let is_com = str_eq(base_transport, "COM");
    let port = if is_com {
        com_from_name(name.as_str())
    } else {
        None
    };
    let is_bt = is_com && (upper_contains(hardware.as_str(), "BTHENUM") || upper_contains(
        hardware.as_str(),
        "BTH\\",
    ) || (path_counts && upper_contains(path.as_str(), "BTHENUM")) || upper_contains(
        instance.as_str(),
        "BTHENUM",
    ) || upper_contains(name.as_str(), "BLUETOOTH"));
    let transport = if is_bt {
        owned("Bluetooth (COM)")
    } else {
        owned(base_transport)
    };
    Device { transport, name, path, instance, hardware, port }
}

/// The name shown for a device: its friendly name, or its description when
/// it has no friendly name.
pub open spec fn shown_name(friendly: Seq<char>, description: Seq<char>) -> Seq<char> {
    if friendly.len() == 0 {
        description
    } else {
        friendly
    }
}

/// Chooses the name shown for a device from its friendly name and its
/// description.
pub fn device_name(friendly: String, description: String) -> (n: String)
    ensures
        n@ == shown_name(friendly@, description@),
{
    let empty = str_eq(friendly.as_str(), "");
    proof {
        reveal_strlit("");
        assert(friendly@.len() == 0 ==> friendly@ =~= ""@);
    }
    if empty {
        description
    } else {
        friendly
    }
}

/// Builds the device record of one enumerated interface from the properties
/// read for it (the library's enumeration, which also looks at the path for
/// a Bluetooth link).
pub fn device_from_properties(
    base_transport: &str,
    name: String,
    path: String,
    instance: String,
    hardware: String,
) -> (d: Device)
    ensures
        d@ == classified_device(base_transport@, name@, path@, instance@, hardware@, true),
{
    classify(base_transport, name, path, instance, hardware, true)
}

/// The device record as the command-line tool enumerates it: the device
/// path does not count as a sign of a Bluetooth link.
pub fn tool_device_from_properties(
    base_transport: &str,
    name: String,
    path: String,
    instance: String,
    hardware: String,
) -> (d: Device)
    ensures
        d@ == classified_device(base_transport@, name@, path@, instance@, hardware@, false),
{
    classify(base_transport, name, path, instance, hardware, false)
}

/// The first serial port in `ports` whose name equals `name`, ignoring ASCII case.
pub open spec fn port_named(ports: Seq<Seq<char>>, name: Seq<char>, i: int) -> Option<Seq<char>>
    decreases ports.len() - i,
{
    if i < 0 || i >= ports.len() {
        None
    } else if eq_ignore_case(ports[i], name) {
        Some(ports[i])
    } else {
        port_named(ports, name, i + 1)
    }
}

/// The first of `ports` named `name`, ignoring ASCII case.
pub fn port_from_list(ports: &Vec<String>, name: &str) -> (r: Option<String>)
    ensures
        opt_view(r) == port_named(ports@.map_values(|p: String| p@), name@, 0),
{
    let ghost views = ports@.map_values(|p: String| p@);
    let mut i: usize = 0;
    while i < ports.len()
        invariant
            views == ports@.map_values(|p: String| p@),
            i <= ports@.len(),
            port_named(views, name@, 0) == port_named(views, name@, i as int),
        decreases ports@.len() - i,
    {
        if str_eq_ignore_case(ports[i].as_str(), name) {
            assert(views[i as int] == ports@[i as int]@);
            return Some(ports[i].clone());
        }
        i = i + 1;
    }
    None
}

/// The device record as the interactive probe enumerates it: no Bluetooth
/// marking; a COM interface whose name does not carry `(COMn)` takes the
/// port listed under its name, if any.
pub fn probe_device_from_properties(
    base_transport: &str,
    name: String,
    path: String,
    instance: String,
    hardware: String,
    ports: &Vec<String>,
) -> (d: Device)
    ensures
        d@ == (DeviceView {
            transport: base_transport@,
            name: name@,
            path: path@,
            instance: instance@,
            hardware: hardware@,
            port: if base_transport@ == "COM"@ {
                match com_port_of(name@) {
                    Some(p) => Some(p),
                    None => port_named(ports@.map_values(|p: String| p@), name@, 0),
                }
            } else {
                None
            },
        }),
{
    let port = if str_eq(base_transport, "COM") {
        match com_from_name(name.as_str()) {
            Some(p) => Some(p),
            None => port_from_list(ports, name.as_str()),
        }
    } else {
        None
    };
    Device { transport: owned(base_transport), name, path, instance, hardware, port }
}

/// The size reported for an interface detail record is usable: 6 to 65536 bytes.
pub fn detail_size_ok(required: u32) -> (b: bool)
    ensures
        b == (6 <= required <= 65536),
{
    6 <= required && required <= 65536
}

/// Number of 8-byte words that hold `required` bytes.
pub fn detail_words(required: u32) -> (n: usize)
    ensures
        n == (required + 7) / 8,
{
    (required / 8) as usize + if required % 8 != 0 {
        1usize
    } else {
        0usize
    }
}

/// UTF-16 units of the device path in a detail record of `required` bytes
/// (after the 4-byte size field).
pub fn path_units(required: u32) -> (n: usize)
    requires
        required >= 4,
    ensures
        n == (required - 4) / 2,
{
    ((required - 4) / 2) as usize
}

/// UTF-16 units of a registry property of `required` bytes read into a
/// 4096-byte buffer.
pub fn property_units(required: u32) -> (n: usize)
    ensures
        n == if required / 2 < 2048 {
            required / 2
        } else {
            2048
        },
{
    let half = (required / 2) as usize;
    if half < 2048 {
        half
    } else {
        2048
    }
}

/// Serial COM interfaces that identify as thermal printers.
pub open spec fn looks_like_printer(d: DeviceView) -> bool {
    let n = upper_seq(d.name);
    let h = upper_seq(d.hardware);
    let p = upper_seq(d.path);
    contains_seq(n, "MPT"@) || contains_seq(n, "CLA58"@) || contains_seq(n, "POS"@) || contains_seq(
        n,
        "PRINTER"@,
    ) || contains_seq(p, "DC0D51597B0C"@) || contains_seq(h, "DC0D51597B0C"@)
}

pub open spec fn starts_with(s: Seq<char>, pat: Seq<char>) -> bool {
    pat.len() <= s.len() && s.take(pat.len() as int) == pat
}

/// Name shown for a Bluetooth printer: generic "standard serial" names are
/// replaced by the printer model.
pub open spec fn bluetooth_name(name: Seq<char>) -> Seq<char> {
    if !contains_seq(upper_seq(name), "SERIAL PADR"@) {
        name
    } else {
        "TECH CLA58 / MPT-II"@
    }
}

/// The printer that a device offers, if any: every USB Printer Class
/// interface, every wired COM port, and the Bluetooth COM ports whose names
/// or ids identify a thermal printer.
pub open spec fn printer_for(d: DeviceView) -> Option<PrinterView> {
    if d.transport == "USB Printer Class"@ {
        Some(
            PrinterView {
                name: d.name,
                transport: TransportView::Usb(d.path),
                display_info: "USB: "@ + d.name,
                is_bluetooth: false,
                port: None,
            },
        )
    } else if contains_seq(d.transport, "COM"@) {
        let is_bt = starts_with(d.transport, "Bluetooth"@);
        match d.port {
            None => None,
            Some(port) => if is_bt && looks_like_printer(d) {
                let clean = bluetooth_name(d.name);
                Some(
                    PrinterView {
                        name: clean,
                        transport: TransportView::Com { port, baud: 9600, is_bluetooth: true },
                        display_info: "Bluetooth: "@ + clean + " ("@ + port + ")"@,
                        is_bluetooth: true,
                        port: Some(port),
                    },
                )
            } else if !is_bt {
                Some(
                    PrinterView {
                        name: d.name,
                        transport: TransportView::Com { port, baud: 9600, is_bluetooth: false },
                        display_info: "Serial COM: "@ + d.name + " ("@ + port + ")"@,
                        is_bluetooth: false,
                        port: Some(port),
                    },
                )
            } else {
                None
            },
        }
    } else {
        None
    }
}

/// A name, device path or hardware id that identifies a thermal printer:
/// the upper-cased name mentions MPT, CLA58, POS or PRINTER, or the
/// upper-cased path or hardware ids carry the Bluetooth address DC0D51597B0C.
pub open spec fn names_thermal_printer(d: DeviceView) -> bool {
    ||| contains_seq(upper_seq(d.name), "MPT"@)
    ||| contains_seq(upper_seq(d.name), "CLA58"@)
    ||| contains_seq(upper_seq(d.name), "POS"@)
    ||| contains_seq(upper_seq(d.name), "PRINTER"@)
    ||| contains_seq(upper_seq(d.path), "DC0D51597B0C"@)
    ||| contains_seq(upper_seq(d.hardware), "DC0D51597B0C"@)
}

/// Law: a Bluetooth serial port with a port name is listed, as a Bluetooth
/// printer on that port at 9600 baud, exactly when its name, path or
/// hardware ids identify a thermal printer.
pub proof fn lemma_bluetooth_printers(d: DeviceView, port: Seq<char>)
    requires
        starts_with(d.transport, "Bluetooth"@),
        contains_seq(d.transport, "COM"@),
        d.port == Some(port),
    ensures
        names_thermal_printer(d) ==> (printer_for(d) matches Some(p) && p.transport
            == (TransportView::Com { port, baud: 9600, is_bluetooth: true }) && p.is_bluetooth
            && p.port == Some(port)),
        !names_thermal_printer(d) ==> printer_for(d) is None,
{
    reveal_strlit("Bluetooth");
    reveal_strlit("USB Printer Class");
    assert(d.transport.take(9)[0] == 'B');
    assert(d.transport != "USB Printer Class"@);
}

/// Law: every USB Printer Class interface is listed as a USB printer on its
/// device path, and every other serial port with a port name that is not a
/// Bluetooth link is listed as a serial printer on that port at 9600 baud.
pub proof fn lemma_wired_printers(d: DeviceView)
    ensures
        d.transport == "USB Printer Class"@ ==> (printer_for(d) matches Some(p) && p.transport
            == TransportView::Usb(d.path) && !p.is_bluetooth),
        d.transport != "USB Printer Class"@ && contains_seq(d.transport, "COM"@) && !starts_with(
            d.transport,
            "Bluetooth"@,
        ) && d.port is Some ==> (printer_for(d) matches Some(p) && p.transport == (TransportView::Com {
            port: d.port->0,
            baud: 9600,
            is_bluetooth: false,
        }) && !p.is_bluetooth),
{
}

/// The printers offered by a list of devices, in the order of the devices.
pub open spec fn printers_for(ds: Seq<DeviceView>) -> Seq<PrinterView>
    decreases ds.len(),
{
    if ds.len() == 0 {
        Seq::empty()
    } else {
        let rest = printers_for(ds.drop_last());
        match printer_for(ds.last()) {
            Some(p) => rest.push(p),
            None => rest,
        }
    }
}

/// The fields of a listed printer agree: a Bluetooth printer is reached
/// over a Bluetooth serial link, a serial printer carries its port, and the
/// speed is 9600 baud.
pub open spec fn printer_consistent(p: PrinterView) -> bool {
    match p.transport {
        TransportView::Usb(_) => !p.is_bluetooth && p.port is None,
        TransportView::Com { port, baud, is_bluetooth } => baud == 9600 && is_bluetooth
            == p.is_bluetooth && p.port == Some(port),
    }
}

/// Law: every printer found is consistent, and there are never more
/// printers than devices.
pub proof fn lemma_printers_consistent(ds: Seq<DeviceView>)
    ensures
        printers_for(ds).len() <= ds.len(),
        forall|i: int| 0 <= i < printers_for(ds).len() ==> printer_consistent(#[trigger] printers_for(ds)[i]),
    decreases ds.len(),
{
    if ds.len() > 0 {
        lemma_printers_consistent(ds.drop_last());
    }
}

pub open spec fn device_views(ds: Seq<Device>) -> Seq<DeviceView> {
    ds.map_values(|d: Device| d@)
}

pub open spec fn printer_views(ps: Seq<DiscoveredPrinter>) -> Seq<PrinterView> {
    ps.map_values(|p: DiscoveredPrinter| p@)
}

fn printer_of(d: &Device) -> (r: Option<DiscoveredPrinter>)
    ensures
        match r {
            Some(p) => printer_for(d@) == Some(p@),
            None => printer_for(d@) is None,
        },
{
    if str_eq(d.transport.as_str(), "USB Printer Class") {
        return Some(
            DiscoveredPrinter {
                name: d.name.clone(),
                transport: ActiveTransport::Usb(d.path.clone()),
                display_info: join2("USB: ", d.name.as_str()),
                is_bluetooth: false,
                port: None,
            },
        );
    }
    if !str_contains(d.transport.as_str(), "COM") {
        return None;
    }
    let is_bt = str_starts_with(d.transport.as_str(), "Bluetooth");
    let name_upper = ascii_uppercase(d.name.as_str());
    let hw_upper = ascii_uppercase(d.hardware.as_str());
    let path_upper = ascii_uppercase(d.path.as_str());
    let is_printer = str_contains(name_upper.as_str(), "MPT") || str_contains(
        name_upper.as_str(),
        "CLA58",
    ) || str_contains(name_upper.as_str(), "POS") || str_contains(name_upper.as_str(), "PRINTER")
        || str_contains(path_upper.as_str(), "DC0D51597B0C") || str_contains(
        hw_upper.as_str(),
        "DC0D51597B0C",
    );
    match &d.port {
        None => None,
        Some(port_name) => {
            if is_bt && is_printer {
                let clean_name = if !str_contains(name_upper.as_str(), "SERIAL PADR") {
                    d.name.clone()
                } else {
                    owned("TECH CLA58 / MPT-II")
                };
                let display_info = join2("Bluetooth: ", clean_name.as_str()).concat(" (").concat(
                    port_name.as_str(),
                ).concat(")");
                Some(
                    DiscoveredPrinter {
                        name: clean_name,
                        transport: ActiveTransport::Com {
                            port: port_name.clone(),
                            baud: 9600,
                            is_bluetooth: true,
                        },
                        display_info,
                        is_bluetooth: true,
                        port: Some(port_name.clone()),
                    },
                )
            } else if !is_bt {
                let display_info = join2("Serial COM: ", d.name.as_str()).concat(" (").concat(
                    port_name.as_str(),
                ).concat(")");
                Some(
                    DiscoveredPrinter {
                        name: d.name.clone(),
                        transport: ActiveTransport::Com {
                            port: port_name.clone(),
                            baud: 9600,
                            is_bluetooth: false,
                        },
                        display_info,
                        is_bluetooth: false,
                        port: Some(port_name.clone()),
                    },
                )
            } else {
                None
            }
        },
    }
}

/// The printers among the enumerated devices, in device order.
pub fn discover_printers(devices: &Vec<Device>) -> (printers: Vec<DiscoveredPrinter>)
    ensures
        printer_views(printers@) == printers_for(device_views(devices@)),
{
    let mut printers: Vec<DiscoveredPrinter> = Vec::new();
    let mut i: usize = 0;
    while i < devices.len()
        invariant
            i <= devices@.len(),
            printer_views(printers@) == printers_for(device_views(devices@.take(i as int))),
        decreases devices@.len() - i,
    {
        let found = printer_of(&devices[i]);
        proof {
            let prefix = devices@.take(i + 1);
            assert(prefix.drop_last() =~= devices@.take(i as int));
            assert(device_views(prefix).drop_last() =~= device_views(devices@.take(i as int)));
            assert(device_views(prefix).last() == devices@[i as int]@);
        }
        match found {
            Some(p) => {
                let ghost before = printers@;
                printers.push(p);
                proof {
                    assert(printer_views(printers@) =~= printer_views(before).push(p@));
                }
            },
            None => {},
        }
        i = i + 1;
    }
    proof {
        assert(devices@.take(devices@.len() as int) =~= devices@);
    }
    printers
}

} // verus!
