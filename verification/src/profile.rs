//! Printer profiles: which connected device a profile selects, and the
//! profile created for a chosen device.

use vstd::prelude::*;
use vstd::string::StringExecFns;
use crate::device::{clone_opt, field, field_of, id_text, opt_view, pid_tag, vid_pid, vid_tag, Device, DeviceView};
use crate::text::{
    alnum, chars_of, contains_seq, eq_ignore_case, is_alnum, is_ascii_char, join2, lower_char, owned,
    str_contains, str_eq, str_eq_ignore_case, string_from_chars,
};

verus! {

/// How a profile reaches its printer.
pub struct TransportProfile {
    /// `"usb-printer-class"`, `"com"`, `"bluetooth"` or `"bluetooth-spp"`.
    pub kind: String,
    /// USB vendor id, four hex digits.
    pub vid: Option<String>,
    /// USB product id, four hex digits.
    pub pid: Option<String>,
    /// Serial port name.
    pub port: Option<String>,
}

/// A saved printer configuration.
pub struct PrinterProfile {
    pub id: String,
    pub name: String,
    pub transport: TransportProfile,
    /// Control protocol, `"escpos"`.
    pub protocol: String,
    /// Raster command, `"gs-v-0"`.
    pub raster_mode: String,
    /// Printable width in dots (384 for 58 mm paper).
    pub printable_width_dots: u32,
    /// Serial speed.
    pub baud: u32,
    /// ESC/POS character table (3 is CP860).
    pub code_page: u8,
}

pub struct TransportProfileView {
    pub kind: Seq<char>,
    pub vid: Option<Seq<char>>,
    pub pid: Option<Seq<char>>,
    pub port: Option<Seq<char>>,
}

impl View for TransportProfile {
    type V = TransportProfileView;

    open spec fn view(&self) -> TransportProfileView {
        TransportProfileView {
            kind: self.kind@,
            vid: opt_view(self.vid),
            pid: opt_view(self.pid),
            port: opt_view(self.port),
        }
    }
}

/// Serial speed used when a profile does not name one.
pub fn default_baud() -> (b: u32)
    ensures
        b == 9600,
{
    9600
}

/// Character table used when a profile does not name one: 3, code page 860.
pub fn default_code_page() -> (c: u8)
    ensures
        c == 3,
{
    3
}

/// A profile's constraint on an optional device value: none given, or the
/// device has a value equal to it ignoring ASCII case.
pub open spec fn constraint_ok(wanted: Option<Seq<char>>, actual: Option<Seq<char>>) -> bool {
    match wanted {
        None => true,
        Some(w) => match actual {
            Some(a) => eq_ignore_case(a, w),
            None => false,
        },
    }
}

/// The profile selects the device: matching transport family, and vendor id,
/// product id and port as far as the profile names them.
pub open spec fn profile_matches(t: TransportProfileView, d: DeviceView) -> bool {
    let is_usb = t.kind == "usb-printer-class"@ && d.transport == "USB Printer Class"@;
    let is_com = (t.kind == "com"@ || t.kind == "bluetooth"@ || t.kind == "bluetooth-spp"@)
        && contains_seq(d.transport, "COM"@);
    &&& is_usb || is_com
    &&& constraint_ok(t.vid, field_of(id_text(d), vid_tag()))
    &&& constraint_ok(t.pid, field_of(id_text(d), pid_tag()))
    &&& constraint_ok(t.port, d.port)
}

/// Law: a profile selects only devices whose vendor id, product id and port
/// are present and equal, ignoring ASCII case, to each one that the profile
/// names.
pub proof fn lemma_profile_constraints(t: TransportProfileView, d: DeviceView)
    requires
        profile_matches(t, d),
    ensures
        t.vid matches Some(w) ==> (field_of(id_text(d), vid_tag()) matches Some(a) && eq_ignore_case(
            a,
            w,
        )),
        t.pid matches Some(w) ==> (field_of(id_text(d), pid_tag()) matches Some(a) && eq_ignore_case(
            a,
            w,
        )),
        t.port matches Some(w) ==> (d.port matches Some(a) && eq_ignore_case(a, w)),
{
}

fn constraint_holds(wanted: &Option<String>, actual: &Option<String>) -> (b: bool)
    ensures
        b == constraint_ok(opt_view(*wanted), opt_view(*actual)),
{
    match wanted {
        None => true,
        Some(w) => match actual {
            Some(a) => str_eq_ignore_case(a.as_str(), w.as_str()),
            None => false,
        },
    }
}

fn matches_device(t: &TransportProfile, d: &Device) -> (b: bool)
    ensures
        b == profile_matches(t@, d@),
{
    let (v, pid) = vid_pid(d);
    let is_usb = str_eq(t.kind.as_str(), "usb-printer-class") && str_eq(
        d.transport.as_str(),
        "USB Printer Class",
    );
    let is_com = (str_eq(t.kind.as_str(), "com") || str_eq(t.kind.as_str(), "bluetooth") || str_eq(
        t.kind.as_str(),
        "bluetooth-spp",
    )) && str_contains(d.transport.as_str(), "COM");
    (is_usb || is_com) && constraint_holds(&t.vid, &v) && constraint_holds(&t.pid, &pid)
        && constraint_holds(&t.port, &d.port)
}

/// Index of the first device that the profile selects.
pub open spec fn first_match(t: TransportProfileView, ds: Seq<DeviceView>, i: int) -> Option<int>
    decreases ds.len() - i,
{
    if i < 0 || i >= ds.len() {
        None
    } else if profile_matches(t, ds[i]) {
        Some(i)
    } else {
        first_match(t, ds, i + 1)
    }
}

/// Law: the device chosen for a profile is one the profile selects, and no
/// device before it is selected; when none is chosen, no device is selected.
pub proof fn lemma_first_match(t: TransportProfileView, ds: Seq<DeviceView>, i: int)
    requires
        0 <= i,
    ensures
        first_match(t, ds, i) matches Some(k) ==> i <= k < ds.len() && profile_matches(t, ds[k])
            && forall|j: int| i <= j < k ==> !profile_matches(t, #[trigger] ds[j]),
        first_match(t, ds, i) is None ==> forall|j: int| i <= j < ds.len() ==> !profile_matches(t, #[trigger] ds[j]),
    decreases ds.len() - i,
{
    if i < ds.len() && !profile_matches(t, ds[i]) {
        lemma_first_match(t, ds, i + 1);
    }
}

/// No connected device matches a profile.
#[derive(Debug, Clone, Copy, PartialEq, Eq)]
pub enum NoMatchingDevice {
    NoMatchingDevice,
}

impl NoMatchingDevice {
    pub fn message(&self) -> (s: String)
        ensures
            s@ == "no connected device matches this profile"@,
    {
        String::from_str("no connected device matches this profile")
    }
}

/// The first connected device that the profile selects.
pub fn device_for_profile(p: &PrinterProfile, ds: &Vec<Device>) -> (r: Result<
    Device,
    NoMatchingDevice,
>)
    ensures
        match r {
            Ok(d) => exists|i: int|
                first_match(p.transport@, ds@.map_values(|x: Device| x@), 0) == Some(i) && d@
                    == ds@[i]@,
            Err(_) => first_match(p.transport@, ds@.map_values(|x: Device| x@), 0) is None,
        },
{
    let ghost views = ds@.map_values(|x: Device| x@);
    let mut i: usize = 0;
    while i < ds.len()
        invariant
            views == ds@.map_values(|x: Device| x@),
            i <= ds@.len(),
            first_match(p.transport@, views, 0) == first_match(p.transport@, views, i as int),
        decreases ds@.len() - i,
    {
        if matches_device(&p.transport, &ds[i]) {
            assert(views[i as int] == ds@[i as int]@);
            return Ok(ds[i].clone());
        }
        i = i + 1;
    }
    Err(NoMatchingDevice::NoMatchingDevice)
}

/// The desktop viewer's check of a USB Printer Class device against a
/// profile: a USB profile whose vendor and product ids (as far as given) match
/// those read from the device's hardware ids.
pub open spec fn usb_profile_matches(t: TransportProfileView, hardware: Seq<char>) -> bool {
    &&& t.kind == "usb-printer-class"@
    &&& constraint_ok(t.vid, field_of(hardware, vid_tag()))
    &&& constraint_ok(t.pid, field_of(hardware, pid_tag()))
}

pub fn usb_profile_accepts(t: &TransportProfile, hardware: &str) -> (b: bool)
    ensures
        b == usb_profile_matches(t@, hardware@),
{
    let vid_t: Vec<char> = vec!['V', 'I', 'D', '_'];
    let pid_t: Vec<char> = vec!['P', 'I', 'D', '_'];
    let vt = string_from_chars(&vid_t);
    let pt = string_from_chars(&pid_t);
    proof {
        assert(vt@ =~= vid_tag());
        assert(pt@ =~= pid_tag());
    }
    let vid = field(hardware, vt.as_str());
    let pid = field(hardware, pt.as_str());
    str_eq(t.kind.as_str(), "usb-printer-class") && constraint_holds(&t.vid, &vid)
        && constraint_holds(&t.pid, &pid)
}

// ---------------------------------------------------------------------------
// Creating a profile
// ---------------------------------------------------------------------------

/// The characters that `str::to_lowercase` produces.
pub uninterp spec fn unicode_lowercase(s: Seq<char>) -> Seq<char>;

pub open spec fn all_ascii(s: Seq<char>) -> bool {
    forall|i: int| 0 <= i < s.len() ==> is_ascii_char(#[trigger] s[i])
}

/// `str::to_lowercase`. The result is named `unicode_lowercase`; its
/// documentation also gives that ASCII text is lowered letter by letter.
#[verifier::external_body]
fn lowercase(s: &str) -> (r: String)
    ensures
        r@ == unicode_lowercase(s@),
        all_ascii(s@) ==> r@ == s@.map_values(|c: char| lower_char(c)),
{
    s.to_lowercase()
}

/// A name made safe for file names: lower-cased, with every character other
/// than an ASCII letter or digit replaced by `-`.
pub open spec fn safe_name_spec(name: Seq<char>) -> Seq<char> {
    unicode_lowercase(name).map_values(
        |c: char|
            if is_alnum(c) {
                c
            } else {
                '-'
            },
    )
}

pub fn safe_name(name: &str) -> (s: String)
    ensures
        s@ == safe_name_spec(name@),
        all_ascii(name@) ==> s@ == ascii_safe_name(name@),
{
    let lower = lowercase(name);
    let chars = chars_of(lower.as_str());
    let ghost target = safe_name_spec(name@);
    let mut out: Vec<char> = Vec::new();
    let mut i: usize = 0;
    while i < chars.len()
        invariant
            chars@ == unicode_lowercase(name@),
            target == safe_name_spec(name@),
            i <= chars@.len(),
            out@ == target.take(i as int),
        decreases chars@.len() - i,
    {
        let c = chars[i];
        let m = if alnum(c) {
            c
        } else {
            '-'
        };
        assert(target.take(i + 1) =~= target.take(i as int).push(m));
        out.push(m);
        i = i + 1;
    }
    assert(target.take(chars@.len() as int) =~= target);
    proof {
        if all_ascii(name@) {
            assert(target =~= ascii_safe_name(name@));
        }
    }
    string_from_chars(&out)
}

/// Safe name of ASCII text: letters lowered, anything but an ASCII letter or
/// digit replaced by `-`.
pub open spec fn ascii_safe_name(name: Seq<char>) -> Seq<char> {
    name.map_values(
        |c: char|
            if is_alnum(lower_char(c)) {
                lower_char(c)
            } else {
                '-'
            },
    )
}

/// Law: a safe name of ASCII text is ASCII, and making it safe again
/// changes nothing.
pub proof fn lemma_safe_name_idempotent(name: Seq<char>)
    requires
        all_ascii(name),
    ensures
        all_ascii(ascii_safe_name(name)),
        ascii_safe_name(ascii_safe_name(name)) == ascii_safe_name(name),
{
    assert(ascii_safe_name(ascii_safe_name(name)) =~= ascii_safe_name(name));
}

/// Transport kind recorded for a device: `"com"` for every COM interface,
/// `"usb-printer-class"` otherwise.
pub open spec fn kind_for(transport: Seq<char>) -> Seq<char> {
    if contains_seq(transport, "COM"@) {
        "com"@
    } else {
        "usb-printer-class"@
    }
}

/// The transport recorded in a profile saved for a device: its kind, its
/// vendor and product ids and its port.
pub open spec fn saved_transport(d: DeviceView) -> TransportProfileView {
    TransportProfileView {
        kind: kind_for(d.transport),
        vid: field_of(id_text(d), vid_tag()),
        pid: field_of(id_text(d), pid_tag()),
        port: d.port,
    }
}

/// Law: the transport saved for a USB printer-class or COM device selects
/// that device again.
pub proof fn lemma_saved_transport_selects(d: DeviceView)
    requires
        d.transport == "USB Printer Class"@ || contains_seq(d.transport, "COM"@),
    ensures
        profile_matches(saved_transport(d), d),
{
}

/// Law: the profile saved for a device selects no device whose vendor id,
/// product id or port differs (ignoring ASCII case) from the one read from
/// that device.
pub proof fn lemma_saved_transport_ids(d: DeviceView, e: DeviceView)
    requires
        profile_matches(saved_transport(d), e),
    ensures
        field_of(id_text(d), vid_tag()) matches Some(w) ==> (field_of(id_text(e), vid_tag()) matches Some(
            a,
        ) && eq_ignore_case(a, w)),
        field_of(id_text(d), pid_tag()) matches Some(w) ==> (field_of(id_text(e), pid_tag()) matches Some(
            a,
        ) && eq_ignore_case(a, w)),
        d.port matches Some(w) ==> (e.port matches Some(a) && eq_ignore_case(a, w)),
{
    lemma_profile_constraints(saved_transport(d), e);
}

/// The profile saved for a chosen device. Omitted options take their
/// defaults (width 384, 9600 baud, code page 3); numeric options are
/// truncated to the field width.
pub fn profile_for_device(
    d: &Device,
    id: Option<String>,
    width: Option<usize>,
    baud: Option<usize>,
    code_page: Option<usize>,
) -> (p: PrinterProfile)
    ensures
        p.name@ == d.name@,
        p.id@ == match id {
            Some(s) => s@,
            None => "generic-"@ + safe_name_spec(d.name@) + "-raster"@,
        },
        p.transport@ == saved_transport(d@),
        p.transport.kind@ == (if contains_seq(d.transport@, "COM"@) {
            "com"@
        } else {
            "usb-printer-class"@
        }),
        opt_view(p.transport.vid) == field_of(id_text(d@), vid_tag()),
        opt_view(p.transport.pid) == field_of(id_text(d@), pid_tag()),
        opt_view(p.transport.port) == d@.port,
        p.protocol@ == "escpos"@,
        p.raster_mode@ == "gs-v-0"@,
        p.printable_width_dots == (match width {
            Some(w) => w,
            None => 384,
        }) as u32,
        p.baud == (match baud {
            Some(b) => b,
            None => 9600,
        }) as u32,
        p.code_page == (match code_page {
            Some(c) => c,
            None => 3,
        }) as u8,
{
    let (vid, pid) = vid_pid(d);
    let kind = if str_contains(d.transport.as_str(), "COM") {
        owned("com")
    } else {
        owned("usb-printer-class")
    };
    let id = match id {
        Some(s) => s,
        None => join2("generic-", safe_name(d.name.as_str()).as_str()).concat("-raster"),
    };
    let w: usize = match width {
        Some(w) => w,
        None => 384,
    };
    let b: usize = match baud {
        Some(b) => b,
        None => 9600,
    };
    let c: usize = match code_page {
        Some(c) => c,
        None => 3,
    };
    PrinterProfile {
        id,
        name: d.name.clone(),
        transport: TransportProfile { kind, vid, pid, port: clone_opt(&d.port) },
        protocol: owned("escpos"),
        raster_mode: owned("gs-v-0"),
        printable_width_dots: #[verifier::truncate] (w as u32),
        baud: #[verifier::truncate] (b as u32),
        code_page: #[verifier::truncate] (c as u8),
    }
}

/// Default file for a new profile: `profiles/<safe name>-<vendor id or
/// "device">.json`.
pub fn default_profile_path(d: &Device) -> (s: String)
    ensures
        s@ == "profiles/"@ + safe_name_spec(d.name@) + "-"@ + match field_of(id_text(d@), vid_tag()) {
            Some(v) => v,
            None => "device"@,
        } + ".json"@,
{
    let (vid, _pid) = vid_pid(d);
    let tail = match vid {
        Some(v) => v,
        None => owned("device"),
    };
    join2("profiles/", safe_name(d.name.as_str()).as_str()).concat("-").concat(tail.as_str()).concat(
        ".json",
    )
}

} // verus!
