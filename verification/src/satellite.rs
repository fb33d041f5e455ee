//! What the satellite programs share: where to connect to, how a line splits
//! into command and data, and how a satellite registers its device.

use vstd::prelude::*;
use vstd::string::*;
use vstd::utf8::*;
use crate::text::{decimal, lemma_ascii_is_boundary, lemma_boundary_after_ascii, lemma_str_ends,
    push_decimal, slice};

verus! {

/// A host and a port.
#[derive(Debug, Clone)]
pub struct HostPort {
    pub host: String,
    pub port: u16,
}

/// The arguments of the satellite program.
#[derive(Debug, Clone)]
pub struct Cli {
    /// Host of the controller.
    pub host: String,
    /// Port of the controller.
    pub port: u16,
}

/// Offset of the first space at or behind `i`, or the length of the text.
pub open spec fn space_from(s: Seq<u8>, i: int) -> int
    decreases s.len() - i,
{
    if 0 <= i < s.len() && s[i] != 0x20 {
        space_from(s, i + 1)
    } else {
        i
    }
}

/// The command word of a line and the data behind it: what stands before the
/// first space and what stands behind it. `None` for a line without a space.
pub open spec fn command_data_spec(line: Seq<u8>) -> Option<(Seq<u8>, Seq<u8>)> {
    let at = space_from(line, 0);
    if at < line.len() {
        Some((line.subrange(0, at), line.subrange(at + 1, line.len() as int)))
    } else {
        None
    }
}

/// Splits a line into command and data.
pub fn command_data(line: &str) -> (r: Option<(&str, &str)>)
    ensures
        match command_data_spec(line.spec_bytes()) {
            Some((c, d)) => r matches Some((command, data)) && command.spec_bytes() == c
                && data.spec_bytes() == d,
            None => r is None,
        },
{
    let b = line.as_bytes();
    let mut at: usize = 0;
    while at < b.len() && b[at] != 0x20
        invariant
            at <= b@.len(),
            b@ == line.spec_bytes(),
            space_from(b@, 0) == space_from(b@, at as int),
        decreases b@.len() - at,
    {
        at += 1;
    }
    if at >= b.len() {
        return None;
    }
    proof {
        lemma_str_ends(line);
        lemma_ascii_is_boundary(b@, at as int);
        lemma_boundary_after_ascii(b@, at as int);
    }
    Some((slice(line, 0, at), slice(line, at + 1, b.len())))
}

/// What a satellite tells the controller about its device when it registers.
#[derive(Debug, Clone)]
pub struct DeviceMsg {
    pub device_id: String,
    pub product_name: String,
    pub keys_total: u32,
    pub keys_per_row: u32,
}

impl DeviceMsg {
    /// The fields of the registration, as they stand on the line. The
    /// bitmaps that a satellite asks for are 120 pixels wide.
    pub open spec fn text(&self) -> Seq<char> {
        "DEVICEID="@ + self.device_id@ + " PRODUCT_NAME=\""@ + self.product_name@
            + "\" KEYS_TOTAL="@ + decimal(self.keys_total as nat) + ", KEYS_PER_ROW="@ + decimal(
            self.keys_per_row as nat,
        ) + " BITMAPS=120 COLORS=0 TEXT=0"@
    }

    /// Writes the fields of the registration.
    pub fn device_msg(&self) -> (r: String)
        ensures
            r@ == self.text(),
    {
        let mut out = String::new();
        out.append("DEVICEID=");
        out.append(self.device_id.as_str());
        out.append(" PRODUCT_NAME=\"");
        out.append(self.product_name.as_str());
        out.append("\" KEYS_TOTAL=");
        push_decimal(&mut out, self.keys_total as u64);
        out.append(", KEYS_PER_ROW=");
        push_decimal(&mut out, self.keys_per_row as u64);
        out.append(" BITMAPS=120 COLORS=0 TEXT=0");
        assert(out@ =~= self.text());
        out
    }
}

} // verus!
