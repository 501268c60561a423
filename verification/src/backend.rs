//! Requests of the desktop front end: printer listings, the transport a job
//! goes to, and the bytes of a job.

use vstd::prelude::*;
use crate::codepage::{text_job, text_job_bytes};
use crate::device::{clone_opt, opt_view};
use crate::discovery::{ActiveTransport, DiscoveredPrinter, TransportView};
use crate::payload::feed_spec;
use crate::text::{contains_seq, owned, str_contains, str_eq};

verus! {

/// A printer as listed to the front end.
pub struct PrinterDto {
    pub name: String,
    pub display_info: String,
    pub is_bluetooth: bool,
    pub port: Option<String>,
    /// `"usb"` or `"com"`.
    pub transport_type: String,
    /// Device path or serial port.
    pub target: String,
}

/// A document prepared for preview.
pub struct DocumentPreviewDto {
    pub file_name: String,
    pub file_path: String,
    pub file_size: u64,
    /// `"text"` or `"raster"`.
    pub kind: String,
    pub text_content: Option<String>,
    pub preview_image_base64: Option<String>,
    pub page_count: usize,
    pub width_dots: u32,
}

/// A print request from the front end.
pub struct PrintJobRequest {
    pub file_path: Option<String>,
    pub direct_text: Option<String>,
    /// `"usb"`, `"com"` or `"bluetooth"`.
    pub target_transport: String,
    /// USB device path or COM port.
    pub target_param: String,
    pub baud: Option<u32>,
    pub code_page: Option<u8>,
    pub width_dots: Option<u32>,
}

/// The listing entry of a discovered printer.
pub fn printer_dto(p: &DiscoveredPrinter) -> (d: PrinterDto)
    ensures
        d.name@ == p.name@,
        d.display_info@ == p.display_info@,
        d.is_bluetooth == p.is_bluetooth,
        opt_view(d.port) == opt_view(p.port),
        match p.transport@ {
            TransportView::Usb(path) => d.transport_type@ == "usb"@ && d.target@ == path,
            TransportView::Com { port, .. } => d.transport_type@ == "com"@ && d.target@ == port,
        },
{
    let (transport_type, target) = match &p.transport {
        ActiveTransport::Usb(path) => (owned("usb"), path.clone()),
        ActiveTransport::Com { port, .. } => (owned("com"), port.clone()),
    };
    PrinterDto {
        name: p.name.clone(),
        display_info: p.display_info.clone(),
        is_bluetooth: p.is_bluetooth,
        port: clone_opt(&p.port),
        transport_type,
        target,
    }
}

/// Printable width of a request: 384 dots unless given.
pub fn job_width(req: &PrintJobRequest) -> (w: u32)
    ensures
        w == match req.width_dots {
            Some(w) => w,
            None => 384u32,
        },
{
    match req.width_dots {
        Some(w) => w,
        None => 384,
    }
}

/// Character table of a request: 3 (CP860) unless given.
pub fn job_code_page(req: &PrintJobRequest) -> (c: u8)
    ensures
        c == match req.code_page {
            Some(c) => c,
            None => 3u8,
        },
{
    match req.code_page {
        Some(c) => c,
        None => 3,
    }
}

/// Where a print job goes: `"usb"` to the device path, `"com"` and
/// `"bluetooth"` to the serial port at the requested speed (9600 unless
/// given), marked Bluetooth for `"bluetooth"` or a port name containing
/// `COM`. `None` for any other transport name.
pub open spec fn job_transport_spec(
    kind: Seq<char>,
    param: Seq<char>,
    baud: Option<u32>,
) -> Option<TransportView> {
    if kind == "usb"@ {
        Some(TransportView::Usb(param))
    } else if kind == "com"@ || kind == "bluetooth"@ {
        Some(
            TransportView::Com {
                port: param,
                baud: match baud {
                    Some(b) => b,
                    None => 9600u32,
                },
                is_bluetooth: kind == "bluetooth"@ || contains_seq(param, "COM"@),
            },
        )
    } else {
        None
    }
}

pub fn job_transport(req: &PrintJobRequest) -> (t: Option<ActiveTransport>)
    ensures
        match t {
            Some(t) => job_transport_spec(req.target_transport@, req.target_param@, req.baud) == Some(
                t@,
            ),
            None => job_transport_spec(req.target_transport@, req.target_param@, req.baud) is None,
        },
{
    let baud: u32 = match req.baud {
        Some(b) => b,
        None => 9600,
    };
    let kind = req.target_transport.as_str();
    if str_eq(kind, "usb") {
        Some(ActiveTransport::Usb(req.target_param.clone()))
    } else if str_eq(kind, "com") || str_eq(kind, "bluetooth") {
        Some(
            ActiveTransport::Com {
                port: req.target_param.clone(),
                baud,
                is_bluetooth: str_eq(kind, "bluetooth") || str_contains(
                    req.target_param.as_str(),
                    "COM",
                ),
            },
        )
    } else {
        None
    }
}

/// Where a test page or paper feed goes: the device path for `"usb"`, the
/// serial port at 9600 baud (marked Bluetooth) for `"com"` and `"bluetooth"`.
pub open spec fn service_transport_spec(kind: Seq<char>, param: Seq<char>) -> Option<TransportView> {
    if kind == "usb"@ {
        Some(TransportView::Usb(param))
    } else if kind == "com"@ || kind == "bluetooth"@ {
        Some(TransportView::Com { port: param, baud: 9600, is_bluetooth: true })
    } else {
        None
    }
}

pub fn service_transport(kind: &str, param: String) -> (t: Option<ActiveTransport>)
    ensures
        match t {
            Some(t) => service_transport_spec(kind@, param@) == Some(t@),
            None => service_transport_spec(kind@, param@) is None,
        },
{
    if str_eq(kind, "usb") {
        Some(ActiveTransport::Usb(param))
    } else if str_eq(kind, "com") || str_eq(kind, "bluetooth") {
        Some(ActiveTransport::Com { port: param, baud: 9600, is_bluetooth: true })
    } else {
        None
    }
}

/// Appends `ESC d 4` and a line feed, so that the printout clears the tear bar.
pub fn finish_job(bytes: &mut Vec<u8>)
    ensures
        final(bytes)@ == old(bytes)@ + feed_spec(4),
{
    bytes.push(0x1b);
    bytes.push(0x64);
    bytes.push(4);
    bytes.push(0x0a);
    proof {
        assert(bytes@ =~= old(bytes)@ + feed_spec(4));
    }
}

/// A text job from the front end: the text print job followed by a feed of
/// four lines.
pub fn text_print_job(code_page: u8, text: &str) -> (out: Vec<u8>)
    ensures
        out@ == text_job(code_page, text@) + feed_spec(4),
{
    let mut out = text_job_bytes(code_page, text);
    finish_job(&mut out);
    out
}

/// A raster job from the front end: `ESC @`, the page payloads in order,
/// and a feed of four lines.
pub fn raster_print_job(pages: &Vec<Vec<u8>>) -> (out: Vec<u8>)
    ensures
        out@ == seq![0x1bu8, 0x40u8] + pages@.map_values(|p: Vec<u8>| p@).flatten() + feed_spec(4),
{
    let ghost views = pages@.map_values(|p: Vec<u8>| p@);
    let mut out: Vec<u8> = vec![0x1b, 0x40];
    let mut i: usize = 0;
    while i < pages.len()
        invariant
            views == pages@.map_values(|p: Vec<u8>| p@),
            i <= pages@.len(),
            out@ == seq![0x1bu8, 0x40u8] + views.take(i as int).flatten(),
        decreases pages@.len() - i,
    {
        let mut page = pages[i].clone();
        proof {
            let prev = views.take(i as int);
            assert(views.take(i + 1) =~= prev.push(page@));
            prev.lemma_flatten_push(page@);
        }
        let ghost before = out@;
        out.append(&mut page);
        proof {
            assert(out@ =~= seq![0x1bu8, 0x40u8] + views.take(i + 1).flatten());
        }
        i = i + 1;
    }
    proof {
        assert(views.take(pages@.len() as int) =~= views);
    }
    finish_job(&mut out);
    out
}

} // verus!
