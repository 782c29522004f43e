//! Reading the device state out of the system utilities' output: the mute
//! flag and the volume from the audio tool's status line, and the brightness
//! from the backlight file.  Running those tools is the binary's business;
//! what their output means is decided here.

use crate::text::{
    contains_seq, find_char, find_from, parse_u8, spec_parse_u8, spec_scaled_value, str_contains,
    trim, trim_spec, TrimClass,
};
use vstd::prelude::*;
use vstd::string::StrSliceExecFns;

verus! {

/// The second space-separated field of a line, where the audio tool prints
/// its numeric volume; nothing when the line has no space.
pub open spec fn second_field(s: Seq<char>) -> Option<Seq<char>> {
    let sp1 = find_from(s, ' ', 0);
    if sp1 == s.len() {
        None
    } else {
        Some(s.subrange(sp1 + 1, find_from(s, ' ', sp1 + 1)))
    }
}

/// The volume a status line reports: its second field, trimmed, read as a
/// decimal fraction of one, scaled to a percentage rounded half up, and
/// clamped to the range of a byte.
pub open spec fn spec_get_volume(out: Seq<char>) -> Option<u8> {
    match second_field(out) {
        None => None,
        Some(f) => match spec_scaled_value(trim_spec(TrimClass::Space, f), 2) {
            None => None,
            Some(v) => Some(
                if v > 255 {
                    255u8
                } else {
                    v as u8
                },
            ),
        },
    }
}

/// Whether the audio tool's status line reports the sink as muted.
pub fn get_volume_mute(output: &str) -> (r: bool)
    ensures
        r <==> contains_seq(output@, "MUTED"@),
{
    str_contains(output, "MUTED")
}

/// Whether the audio tool's status line reports the source as muted.
pub fn get_microphone_mute(output: &str) -> (r: bool)
    ensures
        r <==> contains_seq(output@, "MUTED"@),
{
    str_contains(output, "MUTED")
}

/// Reads the volume percentage out of the audio tool's status line.
pub fn get_volume(output: &str) -> (r: Option<u8>)
    ensures
        r == spec_get_volume(output@),
{
    let n = output.unicode_len();
    let sp1 = find_char(output, ' ', 0);
    if sp1 == n {
        return None;
    }
    let sp2 = find_char(output, ' ', sp1 + 1);
    let field = output.substring_char(sp1 + 1, sp2);
    let trimmed = trim(field, TrimClass::Space);
    match crate::text::parse_scaled(trimmed, 2, 255) {
        Some(v) => Some(v as u8),
        None => None,
    }
}

/// The brightness the backlight file reports: its content, trimmed, as a
/// byte-sized decimal number.
pub open spec fn spec_get_brightness(out: Seq<char>) -> Option<u8> {
    spec_parse_u8(trim_spec(TrimClass::Space, out))
}

/// Reads the brightness percentage out of the backlight file's content.
pub fn get_brightness(output: &str) -> (r: Option<u8>)
    ensures
        r == spec_get_brightness(output@),
{
    parse_u8(trim(output, TrimClass::Space))
}

/// Whether a volume increment may be applied: an increase is dropped once
/// the volume has reached the top, a decrease always goes through.
pub fn volume_increment_allowed(inc: i8, current: u8) -> (r: bool)
    ensures
        r <==> !(inc > 0 && current >= 100),
{
    !(inc > 0 && current >= 100)
}

} // verus!
