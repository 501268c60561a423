//! Command-line options and device selection of the `thermal-probe` tool.

use vstd::prelude::*;
use crate::device::{opt_view, Device, DeviceView};
use crate::number::{parse_usize, parse_usize_spec};
use crate::text::{contains_seq, str_contains, str_eq};

verus! {

pub open spec fn arg_views(args: Seq<String>) -> Seq<Seq<char>> {
    args.map_values(|a: String| a@)
}

/// Index of the first element equal to `x`.
pub open spec fn first_index(ss: Seq<Seq<char>>, x: Seq<char>, i: int) -> Option<int>
    decreases ss.len() - i,
{
    if i < 0 || i >= ss.len() {
        None
    } else if ss[i] == x {
        Some(i)
    } else {
        first_index(ss, x, i + 1)
    }
}

/// The argument after the first occurrence of `flag`, if both exist.
pub open spec fn option_value(args: Seq<Seq<char>>, flag: Seq<char>) -> Option<Seq<char>> {
    match first_index(args, flag, 0) {
        None => None,
        Some(i) => if i + 1 < args.len() {
            Some(args[i + 1])
        } else {
            None
        },
    }
}

/// The value given for a flag such as `--profile path`.
pub fn option_string(args: &Vec<String>, flag: &str) -> (r: Option<String>)
    ensures
        opt_view(r) == option_value(arg_views(args@), flag@),
{
    let ghost views = arg_views(args@);
    let mut i: usize = 0;
    while i < args.len()
        invariant
            views == arg_views(args@),
            i <= args@.len(),
            first_index(views, flag@, 0) == first_index(views, flag@, i as int),
        decreases args@.len() - i,
    {
        if str_eq(args[i].as_str(), flag) {
            if i + 1 < args.len() {
                return Some(args[i + 1].clone());
            }
            return None;
        }
        i = i + 1;
    }
    None
}

/// The numeric value given for a flag such as `--width 384`; `None` when the
/// flag is missing or its value is not a decimal `usize`.
pub fn option_usize(args: &Vec<String>, flag: &str) -> (r: Option<usize>)
    ensures
        r == match option_value(arg_views(args@), flag@) {
            Some(v) => parse_usize_spec(v),
            None => None,
        },
{
    match option_string(args, flag) {
        Some(v) => parse_usize(v.as_str()),
        None => None,
    }
}

/// A device that print data can be written to directly: a USB Printer Class
/// interface, or a COM interface with a known port.
pub open spec fn is_printable(d: DeviceView) -> bool {
    d.transport == "USB Printer Class"@ || (contains_seq(d.transport, "COM"@) && d.port is Some)
}

pub fn printable(d: &Device) -> (b: bool)
    ensures
        b == is_printable(d@),
{
    str_eq(d.transport.as_str(), "USB Printer Class") || (str_contains(d.transport.as_str(), "COM")
        && d.port.is_some())
}

/// Why a device number was refused.
#[derive(Debug, Clone, Copy, PartialEq, Eq)]
pub enum SelectError {
    /// The number 0 was given; numbering starts at 1.
    StartsAtOne,
    /// No device has that number.
    InvalidNumber,
    /// The device has no direct USB Printer Class or COM transport.
    NotPrintable,
}

impl SelectError {
    pub fn message(&self) -> (s: String)
        ensures
            s@ == match self {
                SelectError::StartsAtOne => "device number starts at 1"@,
                SelectError::InvalidNumber => "invalid device number"@,
                SelectError::NotPrintable => "selected device has no direct USB Printer Class or COM/Bluetooth transport"@,
            },
    {
        match self {
            SelectError::StartsAtOne => String::from_str("device number starts at 1"),
            SelectError::InvalidNumber => String::from_str("invalid device number"),
            SelectError::NotPrintable => String::from_str(
                "selected device has no direct USB Printer Class or COM/Bluetooth transport",
            ),
        }
    }
}

/// The device with 1-based `number` in `devices`, if it can be printed to.
pub fn select_device(devices: &Vec<Device>, number: usize) -> (r: Result<Device, SelectError>)
    ensures
        number == 0 <==> r == Err::<Device, SelectError>(SelectError::StartsAtOne),
        number > devices@.len() <==> r == Err::<Device, SelectError>(SelectError::InvalidNumber),
        (1 <= number <= devices@.len() && !is_printable(devices@[number - 1]@)) <==> r == Err::<
            Device,
            SelectError,
        >(SelectError::NotPrintable),
        r matches Ok(d) ==> 1 <= number <= devices@.len() && d@ == devices@[number - 1]@
            && is_printable(d@),
{
    if number == 0 {
        return Err(SelectError::StartsAtOne);
    }
    let index = number - 1;
    if index >= devices.len() {
        return Err(SelectError::InvalidNumber);
    }
    let d = devices[index].clone();
    if !printable(&d) {
        return Err(SelectError::NotPrintable);
    }
    Ok(d)
}

} // verus!
