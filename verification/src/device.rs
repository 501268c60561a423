//! Devices found by the Windows SetupAPI, the identifiers read from their
//! names, and which of them are thermal printers.

use vstd::prelude::*;
use vstd::string::StringExecFns;
use crate::text::{
    matches_at, all_digits, ascii_uppercase, chars_of, digit, find, find_from, find_from_exec, hex_digit,
    is_digit, is_hex_digit, join2, lemma_find_from, lemma_rfind_below, rfind, rfind_exec,
    string_from_chars, substring, upper_seq,
};

verus! {

// ---------------------------------------------------------------------------
// Device records
// ---------------------------------------------------------------------------

/// A Windows device class GUID.
#[derive(Clone, Copy, Debug, PartialEq, Eq)]
pub struct Guid {
    pub a: u32,
    pub b: u16,
    pub c: u16,
    pub d: [u8; 8],
}

/// USB Printer Class interfaces, `{28D78FAD-5A12-11D1-AE5B-0000F803A8C2}`.
pub fn usbprint_class() -> (g: Guid)
    ensures
        g.a == 0x28d78fad && g.b == 0x5a12 && g.c == 0x11d1,
        g.d@ == seq![0xaeu8, 0x5bu8, 0u8, 0u8, 0xf8u8, 0x03u8, 0xa8u8, 0xc2u8],
{
    let g = Guid { a: 0x28d78fad, b: 0x5a12, c: 0x11d1, d: [0xae, 0x5b, 0, 0, 0xf8, 0x03, 0xa8, 0xc2] };
    assert(g.d@ =~= seq![0xaeu8, 0x5bu8, 0u8, 0u8, 0xf8u8, 0x03u8, 0xa8u8, 0xc2u8]);
    g
}

/// Serial (COM) port interfaces, `{86E0D1E0-8089-11D0-9CE4-08003E301F73}`.
pub fn comport_class() -> (g: Guid)
    ensures
        g.a == 0x86e0d1e0 && g.b == 0x8089 && g.c == 0x11d0,
        g.d@ == seq![0x9cu8, 0xe4u8, 0x08u8, 0u8, 0x3eu8, 0x30u8, 0x1fu8, 0x73u8],
{
    let g = Guid { a: 0x86e0d1e0, b: 0x8089, c: 0x11d0, d: [0x9c, 0xe4, 0x08, 0, 0x3e, 0x30, 0x1f, 0x73] };
    assert(g.d@ =~= seq![0x9cu8, 0xe4u8, 0x08u8, 0u8, 0x3eu8, 0x30u8, 0x1fu8, 0x73u8]);
    g
}

/// Generic USB device interfaces, `{A5DCBF10-6530-11D2-901F-00C04FB951ED}`.
pub fn usb_device_class() -> (g: Guid)
    ensures
        g.a == 0xa5dcbf10 && g.b == 0x6530 && g.c == 0x11d2,
        g.d@ == seq![0x90u8, 0x1fu8, 0u8, 0xc0u8, 0x4fu8, 0xb9u8, 0x51u8, 0xedu8],
{
    let g = Guid { a: 0xa5dcbf10, b: 0x6530, c: 0x11d2, d: [0x90, 0x1f, 0, 0xc0, 0x4f, 0xb9, 0x51, 0xed] };
    assert(g.d@ =~= seq![0x90u8, 0x1fu8, 0u8, 0xc0u8, 0x4fu8, 0xb9u8, 0x51u8, 0xedu8]);
    g
}

/// A device interface found on the system.
pub struct Device {
    /// `"USB Printer Class"`, `"COM"`, `"Bluetooth (COM)"` or
    /// `"USB device (inventory only)"`.
    pub transport: String,
    pub name: String,
    pub path: String,
    pub instance: String,
    pub hardware: String,
    /// Serial port name such as `COM3`.
    pub port: Option<String>,
}

/// What a `Device` holds, as character sequences.
pub struct DeviceView {
    pub transport: Seq<char>,
    pub name: Seq<char>,
    pub path: Seq<char>,
    pub instance: Seq<char>,
    pub hardware: Seq<char>,
    pub port: Option<Seq<char>>,
}

pub open spec fn opt_view(o: Option<String>) -> Option<Seq<char>> {
    match o {
        Some(s) => Some(s@),
        None => None,
    }
}

impl View for Device {
    type V = DeviceView;

    open spec fn view(&self) -> DeviceView {
        DeviceView {
            transport: self.transport@,
            name: self.name@,
            path: self.path@,
            instance: self.instance@,
            hardware: self.hardware@,
            port: opt_view(self.port),
        }
    }
}

pub fn clone_opt(o: &Option<String>) -> (r: Option<String>)
    ensures
        opt_view(r) == opt_view(*o),
{
    match o {
        Some(s) => Some(s.clone()),
        None => None,
    }
}

impl Clone for Device {
    fn clone(&self) -> (r: Device)
        ensures
            r@ == self@,
    {
        Device {
            transport: self.transport.clone(),
            name: self.name.clone(),
            path: self.path.clone(),
            instance: self.instance.clone(),
            hardware: self.hardware.clone(),
            port: clone_opt(&self.port),
        }
    }
}

// ---------------------------------------------------------------------------
// Serial port and USB identifiers
// ---------------------------------------------------------------------------

/// The serial port named in a friendly name such as `"USB Serial (COM3)"`:
/// the text from the `COM` of the last `"(COM"` up to the next `)`, when
/// that text is `COM` followed by at least one ASCII digit.
pub open spec fn com_port_of(name: Seq<char>) -> Option<Seq<char>> {
    match rfind(name, seq!['(', 'C', 'O', 'M']) {
        None => None,
        Some(i) => match find_from(name, seq![')'], i + 1) {
            None => None,
            Some(end) => {
                let port = name.subrange(i + 1, end);
                if port.len() > 3 && all_digits(port.skip(3)) {
                    Some(port)
                } else {
                    None
                }
            },
        },
    }
}

/// Reads the `COMn` port from a device's friendly name.
pub fn com_from_name(name: &str) -> (r: Option<String>)
    ensures
        opt_view(r) == com_port_of(name@),
{
    let chars = chars_of(name);
    let _n = chars.len();
    let open_pat: Vec<char> = vec!['(', 'C', 'O', 'M'];
    let close_pat: Vec<char> = vec![')'];
    proof {
        assert(open_pat@ =~= seq!['(', 'C', 'O', 'M']);
        assert(close_pat@ =~= seq![')']);
    }
    let i = match rfind_exec(&chars, &open_pat) {
        None => return None,
        Some(i) => i,
    };
    proof {
        lemma_rfind_below(name@, seq!['(', 'C', 'O', 'M'], name@.len() + 1int);
    }
    let start = i + 1;
    let end = match find_from_exec(&chars, &close_pat, start) {
        None => return None,
        Some(e) => e,
    };
    proof {
        lemma_find_from(name@, seq![')'], start as int);
    }
    let ghost port = name@.subrange(start as int, end as int);
    assert(port.len() == end - start);
    if end - start <= 3 {
        return None;
    }
    let mut k: usize = start + 3;
    while k < end
        invariant
            chars@ == name@,
            start + 3 <= k <= end,
            end <= name@.len(),
            port == name@.subrange(start as int, end as int),
            port.len() > 3,
            com_port_of(name@) == (if all_digits(port.skip(3)) {
                Some(port)
            } else {
                None
            }),
            forall|j: int| 3 <= j < k - start ==> is_digit(#[trigger] port[j]),
        decreases end - k,
    {
        if !digit(chars[k]) {
            assert(!is_digit(port.skip(3)[k - start - 3]));
            return None;
        }
        k = k + 1;
    }
    assert(all_digits(port.skip(3)));
    Some(substring(name, start, end))
}

/// The text after the first `tag` in the upper-cased `text`, when it starts
/// with four ASCII hex digits: those four digits.
pub open spec fn field_of(text: Seq<char>, tag: Seq<char>) -> Option<Seq<char>> {
    let up = upper_seq(text);
    match find(up, tag) {
        None => None,
        Some(i) => {
            let rest = up.skip(i + tag.len());
            if rest.len() >= 4 && forall|k: int| 0 <= k < 4 ==> is_hex_digit(#[trigger] rest[k]) {
                Some(rest.take(4))
            } else {
                None
            }
        },
    }
}

/// Reads a four-digit hexadecimal identifier that follows `tag` (such as
/// `"VID_"`), case-insensitively; the result is upper case.
pub fn field(text: &str, tag: &str) -> (r: Option<String>)
    ensures
        opt_view(r) == field_of(text@, tag@),
{
    let upper = ascii_uppercase(text);
    let up = chars_of(upper.as_str());
    let pat = chars_of(tag);
    let _n = up.len();
    let i = match find_from_exec(&up, &pat, 0) {
        None => return None,
        Some(i) => i,
    };
    proof {
        lemma_find_from(up@, pat@, 0);
    }
    let start = i + pat.len();
    let ghost rest = up@.skip(start as int);
    assert(rest.len() == up@.len() - start);
    if up.len() - start < 4 {
        return None;
    }
    let mut k: usize = 0;
    while k < 4
        invariant
            up@ == upper_seq(text@),
            _n == up@.len(),
            start + 4 <= up@.len(),
            rest == up@.skip(start as int),
            field_of(text@, tag@) == (if forall|j: int| 0 <= j < 4 ==> is_hex_digit(#[trigger] rest[j]) {
                Some(rest.take(4))
            } else {
                None
            }),
            k <= 4,
            forall|j: int| 0 <= j < k ==> is_hex_digit(#[trigger] rest[j]),
        decreases 4 - k,
    {
        if !hex_digit(up[start + k]) {
            assert(!is_hex_digit(rest[k as int]));
            return None;
        }
        k = k + 1;
    }
    assert(rest.take(4) =~= up@.subrange(start as int, start + 4));
    Some(substring(upper.as_str(), start, start + 4))
}

/// Law: a port read from a friendly name is `COM` followed by one or more
/// ASCII digits.
pub proof fn lemma_com_port_form(name: Seq<char>)
    ensures
        com_port_of(name) matches Some(p) ==> p.len() > 3 && p.take(3) == seq!['C', 'O', 'M']
            && all_digits(p.skip(3)),
{
    if let Some(i) = rfind(name, seq!['(', 'C', 'O', 'M']) {
        lemma_rfind_below(name, seq!['(', 'C', 'O', 'M'], name.len() + 1int);
        if let Some(end) = find_from(name, seq![')'], i + 1) {
            lemma_find_from(name, seq![')'], i + 1);
            let p = name.subrange(i + 1, end);
            assert(name.subrange(i, i + 4) == seq!['(', 'C', 'O', 'M']);
            if p.len() > 3 {
                assert(p.take(3) =~= seq!['C', 'O', 'M']) by {
                    assert forall|k: int| 0 <= k < 3 implies p.take(3)[k] == seq!['C', 'O', 'M'][k] by {
                        assert(p[k] == name[i + 1 + k]);
                        assert(name[i + 1 + k] == name.subrange(i, i + 4)[k + 1]);
                    }
                }
            }
        }
    }
}

proof fn lemma_roundtrip_open(prefix: Seq<char>, digits: Seq<char>)
    requires
        all_digits(digits),
    ensures
        rfind(prefix + seq!['(', 'C', 'O', 'M'] + digits + seq![')'], seq!['(', 'C', 'O', 'M'])
            == Some(prefix.len() as int),
{
    let open_pat = seq!['(', 'C', 'O', 'M'];
    let s = prefix + open_pat + digits + seq![')'];
    let at = prefix.len() as int;
    let close = at + 4 + digits.len();
    assert(s.subrange(at, at + 4) =~= open_pat);
    lemma_rfind_below(s, open_pat, s.len() + 1int);
    match rfind(s, open_pat) {
        None => {
            assert(matches_at(s, open_pat, at));
        },
        Some(k) => {
            if k < at {
                assert(matches_at(s, open_pat, at));
            }
            if k > at {
                assert(s.subrange(k, k + 4)[0] == '(');
                assert(s[k] == '(');
                if k < at + 4 {
                    assert(s[k] == open_pat[k - at]);
                } else if k < close {
                    assert(s[k] == digits[k - at - 4]);
                } else {
                    assert(s[k] == ')');
                }
            }
        },
    }
}

proof fn lemma_roundtrip_close(prefix: Seq<char>, digits: Seq<char>)
    requires
        all_digits(digits),
    ensures
        find_from(
            prefix + seq!['(', 'C', 'O', 'M'] + digits + seq![')'],
            seq![')'],
            prefix.len() + 1int,
        ) == Some(prefix.len() + 4 + digits.len() as int),
{
    let open_pat = seq!['(', 'C', 'O', 'M'];
    let s = prefix + open_pat + digits + seq![')'];
    let at = prefix.len() as int;
    let close = at + 4 + digits.len();
    assert(s.subrange(close, close + 1) =~= seq![')']);
    lemma_find_from(s, seq![')'], at + 1);
    match find_from(s, seq![')'], at + 1) {
        None => {
            assert(matches_at(s, seq![')'], close));
        },
        Some(e) => {
            if e > close {
                assert(matches_at(s, seq![')'], close));
            }
            if e < close {
                assert(s.subrange(e, e + 1)[0] == ')');
                assert(s[e] == ')');
                if e < at + 4 {
                    assert(s[e] == open_pat[e - at]);
                } else {
                    assert(s[e] == digits[e - at - 4]);
                }
            }
        },
    }
}

/// Law: a friendly name that ends in `(COMn)` yields the port `COMn`,
/// whatever comes before it.
pub proof fn lemma_com_port_roundtrip(prefix: Seq<char>, digits: Seq<char>)
    requires
        digits.len() > 0,
        all_digits(digits),
    ensures
        com_port_of(prefix + seq!['(', 'C', 'O', 'M'] + digits + seq![')']) == Some(
            seq!['C', 'O', 'M'] + digits,
        ),
{
    let s = prefix + seq!['(', 'C', 'O', 'M'] + digits + seq![')'];
    let at = prefix.len() as int;
    let close = at + 4 + digits.len();
    lemma_roundtrip_open(prefix, digits);
    lemma_roundtrip_close(prefix, digits);
    let port = s.subrange(at + 1, close);
    assert(port =~= seq!['C', 'O', 'M'] + digits);
    assert(port.skip(3) =~= digits);
}

/// Law: an identifier read by `field` is four upper-case hex digits, and
/// reading from upper-cased text gives the same result.
pub proof fn lemma_field_form(text: Seq<char>, tag: Seq<char>)
    ensures
        field_of(text, tag) matches Some(v) ==> v.len() == 4 && forall|k: int|
            0 <= k < 4 ==> is_hex_digit(#[trigger] v[k]) && !('a' <= v[k] && v[k] <= 'z'),
        field_of(upper_seq(text), tag) == field_of(text, tag),
{
    assert(upper_seq(upper_seq(text)) =~= upper_seq(text));
    if let Some(i) = find(upper_seq(text), tag) {
        lemma_find_from(upper_seq(text), tag, 0);
        let rest = upper_seq(text).skip(i + tag.len());
        assert forall|k: int| 0 <= k < rest.len() implies !('a' <= #[trigger] rest[k] && rest[k] <= 'z') by {
            assert(rest[k] == upper_seq(text)[i + tag.len() + k]);
        }
    }
}

/// Instance id, hardware ids and path, separated by single spaces.
pub open spec fn id_text(d: DeviceView) -> Seq<char> {
    d.instance + seq![' '] + d.hardware + seq![' '] + d.path
}

pub open spec fn vid_tag() -> Seq<char> {
    seq!['V', 'I', 'D', '_']
}

pub open spec fn pid_tag() -> Seq<char> {
    seq!['P', 'I', 'D', '_']
}

/// Vendor and product id of a device, read from its instance id, hardware
/// ids and path.
pub fn vid_pid(d: &Device) -> (r: (Option<String>, Option<String>))
    ensures
        opt_view(r.0) == field_of(id_text(d@), vid_tag()),
        opt_view(r.1) == field_of(id_text(d@), pid_tag()),
{
    let ids = join2(d.instance.as_str(), " ").concat(d.hardware.as_str()).concat(" ").concat(
        d.path.as_str(),
    );
    let vid_t: Vec<char> = vec!['V', 'I', 'D', '_'];
    let pid_t: Vec<char> = vec!['P', 'I', 'D', '_'];
    let vt = string_from_chars(&vid_t);
    let pt = string_from_chars(&pid_t);
    proof {
        reveal_strlit(" ");
        assert(vt@ =~= vid_tag());
        assert(pt@ =~= pid_tag());
        assert(ids@ =~= id_text(d@));
    }
    (field(ids.as_str(), vt.as_str()), field(ids.as_str(), pt.as_str()))
}

// ---------------------------------------------------------------------------
// Wide strings from the SetupAPI
// ---------------------------------------------------------------------------

/// A UTF-16 high (leading) surrogate.
pub open spec fn is_high_surrogate(u: u16) -> bool {
    0xd800 <= u <= 0xdbff
}

/// A UTF-16 low (trailing) surrogate.
pub open spec fn is_low_surrogate(u: u16) -> bool {
    0xdc00 <= u <= 0xdfff
}

/// UTF-16 decoding with replacement: a high surrogate followed by a low one
/// gives the character they encode, any other surrogate gives U+FFFD, and
/// every other unit gives the character with its code.
pub open spec fn utf16_lossy(units: Seq<u16>) -> Seq<char>
    decreases units.len(),
{
    if units.len() == 0 {
        Seq::empty()
    } else if units.len() >= 2 && is_high_surrogate(units[0]) && is_low_surrogate(units[1]) {
        let code = 0x10000 + (units[0] - 0xd800) * 0x400 + (units[1] - 0xdc00);
        seq![code as char] + utf16_lossy(units.skip(2))
    } else if is_high_surrogate(units[0]) || is_low_surrogate(units[0]) {
        seq!['\u{fffd}'] + utf16_lossy(units.skip(1))
    } else {
        seq![units[0] as char] + utf16_lossy(units.skip(1))
    }
}

/// `String::from_utf16_lossy`: UTF-16 decoding in which each invalid
/// surrogate becomes U+FFFD, as std documents it.
#[verifier::external_body]
fn decode_utf16_lossy(units: &[u16]) -> (s: String)
    ensures
        s@ == utf16_lossy(units@),
{
    String::from_utf16_lossy(units)
}

/// Index of the first NUL unit at or after `i`, or the length when none.
pub open spec fn nul_from(s: Seq<u16>, i: int) -> int
    decreases s.len() - i,
{
    if i >= s.len() || i < 0 {
        s.len() as int
    } else if s[i] == 0 {
        i
    } else {
        nul_from(s, i + 1)
    }
}

/// The units before the first NUL.
pub open spec fn before_nul(s: Seq<u16>) -> Seq<u16> {
    s.take(nul_from(s, 0))
}

proof fn lemma_nul_from_bounds(s: Seq<u16>, i: int)
    requires
        0 <= i <= s.len(),
    ensures
        i <= nul_from(s, i) <= s.len(),
        forall|j: int| i <= j < nul_from(s, i) ==> s[j] != 0,
        nul_from(s, i) < s.len() ==> s[nul_from(s, i)] == 0,
    decreases s.len() - i,
{
    if i < s.len() && s[i] != 0 {
        lemma_nul_from_bounds(s, i + 1);
    }
}

/// Decodes a NUL-terminated wide string; units after the first NUL are ignored.
pub fn wide_z(data: &[u16]) -> (s: String)
    ensures
        s@ == utf16_lossy(before_nul(data@)),
{
    let n = data.len();
    let mut prefix: Vec<u16> = Vec::new();
    let mut i: usize = 0;
    while i < n && data[i] != 0
        invariant
            n == data@.len(),
            i <= n,
            nul_from(data@, 0) == nul_from(data@, i as int),
            prefix@ == data@.take(i as int),
        decreases n - i,
    {
        prefix.push(data[i]);
        assert(data@.take(i + 1) =~= data@.take(i as int).push(data@[i as int]));
        i = i + 1;
    }
    decode_utf16_lossy(prefix.as_slice())
}

/// Law: a wide string reads the same whatever follows its first NUL.
pub proof fn lemma_before_nul_ignores_tail(a: Seq<u16>, b: Seq<u16>, c: Seq<u16>)
    requires
        forall|i: int| 0 <= i < a.len() ==> a[i] != 0,
    ensures
        before_nul(a + seq![0u16] + b) == a,
        before_nul(a + seq![0u16] + b) == before_nul(a + seq![0u16] + c),
{
    lemma_nul_prefix(a, a + seq![0u16] + b, 0);
    lemma_nul_prefix(a, a + seq![0u16] + c, 0);
    assert((a + seq![0u16] + b).take(a.len() as int) =~= a);
    assert((a + seq![0u16] + c).take(a.len() as int) =~= a);
}

proof fn lemma_nul_prefix(a: Seq<u16>, s: Seq<u16>, i: int)
    requires
        0 <= i <= a.len(),
        a.len() < s.len(),
        s[a.len() as int] == 0,
        forall|j: int| 0 <= j < a.len() ==> s[j] == a[j] && a[j] != 0,
    ensures
        nul_from(s, i) == a.len(),
    decreases a.len() - i,
{
    if i < a.len() {
        lemma_nul_prefix(a, s, i + 1);
    }
}

} // verus!
