//! The encoding of the binary protocol's messages as payloads of frames.
//!
//! A payload starts with the version of the encoding and a tag for the kind of
//! message. What follows depends on the kind; the field that comes last takes
//! the rest of the payload, so no field needs a length of its own.

use vstd::prelude::*;
use vstd::string::*;
use vstd::utf8::*;
use vstd::slice::{slice_subrange, slice_to_vec};
use crate::text::string_from_utf8;
use crate::leaf_comm::{ButtonChange, Command, CommandView, DeviceActions, DeviceActionsView,
    EncoderChange, EncoderTwist, RemoteConfig, SetBrightness, SetButtonImage, SetLCDImage};

verus! {

/// The version of the encoding; the first byte of every payload.
pub const VERSION: u8 = 1;

pub const TAG_BUTTON_IMAGE: u8 = 0;

pub const TAG_LCD_IMAGE: u8 = 1;

pub const TAG_BRIGHTNESS: u8 = 2;

pub const TAG_CONFIG: u8 = 16;

pub const TAG_BUTTON_CHANGE: u8 = 17;

pub const TAG_ENCODER_CHANGE: u8 = 18;

pub const TAG_ENCODER_TWIST: u8 = 19;

/// The two bytes that write `n`, most significant first.
pub open spec fn be16(n: u16) -> Seq<u8> {
    seq![(n / 0x100) as u8, (n % 0x100) as u8]
}

/// The number that two bytes write, most significant first.
pub open spec fn be16_value(hi: u8, lo: u8) -> u16 {
    (hi * 0x100 + lo) as u16
}

/// A flag as a byte: 1 for set, 0 for clear.
pub open spec fn flag_byte(b: bool) -> u8 {
    if b {
        1
    } else {
        0
    }
}

/// A signed step count as a byte, in two's complement.
pub open spec fn twist_byte(d: i8) -> u8 {
    if d < 0 {
        (d + 0x100) as u8
    } else {
        d as u8
    }
}

/// The signed step count that a byte writes in two's complement.
pub open spec fn byte_twist(b: u8) -> i8 {
    if b >= 0x80 {
        (b - 0x100) as i8
    } else {
        b as i8
    }
}

/// A list of indices with flags: two bytes each, the index and the flag.
pub open spec fn encode_flags(s: Seq<(u8, bool)>) -> Seq<u8> {
    Seq::new(
        2 * s.len(),
        |j: int|
            if j % 2 == 0 {
                s[j / 2].0
            } else {
                flag_byte(s[j / 2].1)
            },
    )
}

/// The list that [`encode_flags`] wrote. `None` for an odd number of bytes
/// and for a flag that is neither 0 nor 1.
pub open spec fn decode_flags(b: Seq<u8>) -> Option<Seq<(u8, bool)>> {
    if b.len() % 2 == 0 && (forall|i: int| 0 <= i < b.len() / 2 ==> #[trigger] b[2 * i + 1] <= 1) {
        Some(Seq::new(b.len() / 2, |i: int| (b[2 * i], b[2 * i + 1] == 1)))
    } else {
        None
    }
}

/// A list of indices with step counts: two bytes each.
pub open spec fn encode_twists(s: Seq<(u8, i8)>) -> Seq<u8> {
    Seq::new(
        2 * s.len(),
        |j: int|
            if j % 2 == 0 {
                s[j / 2].0
            } else {
                twist_byte(s[j / 2].1)
            },
    )
}

/// The list that [`encode_twists`] wrote. `None` for an odd number of bytes.
pub open spec fn decode_twists(b: Seq<u8>) -> Option<Seq<(u8, i8)>> {
    if b.len() % 2 == 0 {
        Some(Seq::new(b.len() / 2, |i: int| (b[2 * i], byte_twist(b[2 * i + 1]))))
    } else {
        None
    }
}

/// The payload that says `a`.
pub open spec fn encode_action(a: DeviceActionsView) -> Seq<u8> {
    match a {
        DeviceActionsView::SetButtonImage { button, image } => seq![
            VERSION,
            TAG_BUTTON_IMAGE,
            button,
        ] + image,
        DeviceActionsView::SetLCDImage { x_offset, x_size, y_size, image } => seq![
            VERSION,
            TAG_LCD_IMAGE,
        ] + be16(x_offset) + be16(x_size) + be16(y_size) + image,
        DeviceActionsView::SetBrightness { brightness } => seq![
            VERSION,
            TAG_BRIGHTNESS,
            brightness,
        ],
    }
}

/// What a payload says to a device. `None` where the payload is of another
/// version or kind, or too short or too long for its kind.
pub open spec fn decode_action(b: Seq<u8>) -> Option<DeviceActionsView> {
    if b.len() < 2 || b[0] != VERSION {
        None
    } else if b[1] == TAG_BUTTON_IMAGE && b.len() >= 3 {
        Some(DeviceActionsView::SetButtonImage { button: b[2], image: b.subrange(3, b.len() as int) })
    } else if b[1] == TAG_LCD_IMAGE && b.len() >= 8 {
        Some(
            DeviceActionsView::SetLCDImage {
                x_offset: be16_value(b[2], b[3]),
                x_size: be16_value(b[4], b[5]),
                y_size: be16_value(b[6], b[7]),
                image: b.subrange(8, b.len() as int),
            },
        )
    } else if b[1] == TAG_BRIGHTNESS && b.len() == 3 {
        Some(DeviceActionsView::SetBrightness { brightness: b[2] })
    } else {
        None
    }
}

/// The payload that reports `e`.
pub open spec fn encode_event(e: CommandView) -> Seq<u8> {
    match e {
        CommandView::Config { pid, device_id } => seq![VERSION, TAG_CONFIG] + be16(pid)
            + encode_utf8(device_id),
        CommandView::ButtonChange(s) => seq![VERSION, TAG_BUTTON_CHANGE] + encode_flags(s),
        CommandView::EncoderChange(s) => seq![VERSION, TAG_ENCODER_CHANGE] + encode_flags(s),
        CommandView::EncoderTwist(s) => seq![VERSION, TAG_ENCODER_TWIST] + encode_twists(s),
    }
}

/// What a payload reports from a device. `None` where the payload is of
/// another version or kind, or its body is not what the kind asks for.
pub open spec fn decode_event(b: Seq<u8>) -> Option<CommandView> {
    let body = b.subrange(2, b.len() as int);
    if b.len() < 2 || b[0] != VERSION {
        None
    } else if b[1] == TAG_CONFIG {
        if b.len() >= 4 && valid_utf8(b.subrange(4, b.len() as int)) {
            Some(
                CommandView::Config {
                    pid: be16_value(b[2], b[3]),
                    device_id: decode_utf8(b.subrange(4, b.len() as int)),
                },
            )
        } else {
            None
        }
    } else if b[1] == TAG_BUTTON_CHANGE {
        match decode_flags(body) {
            Some(s) => Some(CommandView::ButtonChange(s)),
            None => None,
        }
    } else if b[1] == TAG_ENCODER_CHANGE {
        match decode_flags(body) {
            Some(s) => Some(CommandView::EncoderChange(s)),
            None => None,
        }
    } else if b[1] == TAG_ENCODER_TWIST {
        match decode_twists(body) {
            Some(s) => Some(CommandView::EncoderTwist(s)),
            None => None,
        }
    } else {
        None
    }
}

/// Lists of flags are read back as they were written.
pub proof fn lemma_flags_round_trip(s: Seq<(u8, bool)>)
    ensures
        decode_flags(encode_flags(s)) == Some(s),
{
    let b = encode_flags(s);
    assert forall|i: int| 0 <= i < b.len() / 2 implies #[trigger] b[2 * i + 1] <= 1 by {
        assert((2 * i + 1) / 2 == i);
    }
    let d = Seq::new(b.len() / 2, |i: int| (b[2 * i], b[2 * i + 1] == 1));
    assert forall|i: int| 0 <= i < s.len() implies d[i] == s[i] by {
        assert((2 * i) / 2 == i);
        assert((2 * i + 1) / 2 == i);
    }
    assert(d =~= s);
}

/// Lists of step counts are read back as they were written.
pub proof fn lemma_twists_round_trip(s: Seq<(u8, i8)>)
    ensures
        decode_twists(encode_twists(s)) == Some(s),
{
    let b = encode_twists(s);
    let d = Seq::new(b.len() / 2, |i: int| (b[2 * i], byte_twist(b[2 * i + 1])));
    assert forall|i: int| 0 <= i < s.len() implies d[i] == s[i] by {
        assert((2 * i) / 2 == i);
        assert((2 * i + 1) / 2 == i);
    }
    assert(d =~= s);
}

/// Every action is read back from its payload exactly as it was.
pub proof fn lemma_action_round_trip(a: DeviceActionsView)
    ensures
        decode_action(encode_action(a)) == Some(a),
{
    let b = encode_action(a);
    match a {
        DeviceActionsView::SetButtonImage { button, image } => {
            assert(b.subrange(3, b.len() as int) =~= image);
        },
        DeviceActionsView::SetLCDImage { x_offset, x_size, y_size, image } => {
            assert(b.subrange(8, b.len() as int) =~= image);
            assert(b[2] == be16(x_offset)[0] && b[3] == be16(x_offset)[1]);
            assert(b[4] == be16(x_size)[0] && b[5] == be16(x_size)[1]);
            assert(b[6] == be16(y_size)[0] && b[7] == be16(y_size)[1]);
        },
        DeviceActionsView::SetBrightness { brightness } => {},
    }
}

/// Every event is read back from its payload exactly as it was.
pub proof fn lemma_event_round_trip(e: CommandView)
    ensures
        decode_event(encode_event(e)) == Some(e),
{
    let b = encode_event(e);
    let body = b.subrange(2, b.len() as int);
    match e {
        CommandView::Config { pid, device_id } => {
            assert(b[2] == be16(pid)[0] && b[3] == be16(pid)[1]);
            assert(b.subrange(4, b.len() as int) =~= encode_utf8(device_id));
            encode_utf8_valid_utf8(device_id);
            encode_utf8_decode_utf8(device_id);
        },
        CommandView::ButtonChange(s) => {
            assert(body =~= encode_flags(s));
            lemma_flags_round_trip(s);
        },
        CommandView::EncoderChange(s) => {
            assert(body =~= encode_flags(s));
            lemma_flags_round_trip(s);
        },
        CommandView::EncoderTwist(s) => {
            assert(body =~= encode_twists(s));
            lemma_twists_round_trip(s);
        },
    }
}

/// A message that has an encoding as a payload.
pub trait Wire: Sized + View {
    /// The payload that says `v`.
    spec fn encoded(v: Self::V) -> Seq<u8>;

    /// What a payload says, where it says anything.
    spec fn decoded(bytes: Seq<u8>) -> Option<Self::V>;

    /// Encoding and then decoding gives the message back.
    proof fn round_trip(v: Self::V)
        ensures
            Self::decoded(Self::encoded(v)) == Some(v),
    ;

    /// Encodes the message.
    fn encode(&self) -> (r: Vec<u8>)
        ensures
            r@ == Self::encoded(self@),
    ;

    /// Decodes a payload.
    fn decode(bytes: &[u8]) -> (r: Option<Self>)
        ensures
            match Self::decoded(bytes@) {
                Some(v) => r matches Some(m) && m@ == v,
                None => r is None,
            },
    ;
}

fn push_be16(out: &mut Vec<u8>, n: u16)
    ensures
        final(out)@ == old(out)@ + be16(n),
{
    out.push((n / 0x100) as u8);
    out.push((n % 0x100) as u8);
    assert(out@ =~= old(out)@ + be16(n));
}

fn read_be16(hi: u8, lo: u8) -> (r: u16)
    ensures
        r == be16_value(hi, lo),
{
    (hi as u16) * 0x100 + (lo as u16)
}

fn push_flags(out: &mut Vec<u8>, s: &Vec<(u8, bool)>)
    ensures
        final(out)@ == old(out)@ + encode_flags(s@),
{
    let ghost before = out@;
    let mut i: usize = 0;
    while i < s.len()
        invariant
            i <= s@.len(),
            out@ == before + encode_flags(s@.subrange(0, i as int)),
        decreases s@.len() - i,
    {
        let (index, flag) = s[i];
        out.push(index);
        out.push(if flag { 1 } else { 0 });
        proof {
            let a = encode_flags(s@.subrange(0, i as int));
            let b = encode_flags(s@.subrange(0, i + 1));
            assert forall|j: int| 0 <= j < b.len() implies b[j] == (a + seq![
                index,
                flag_byte(flag),
            ])[j] by {
                if j < 2 * i {
                    assert(j / 2 < i);
                } else {
                    assert(j / 2 == i);
                }
            }
            assert(b =~= a + seq![index, flag_byte(flag)]);
            assert(out@ =~= before + b);
        }
        i += 1;
    }
    assert(s@.subrange(0, i as int) =~= s@);
}

fn read_flags(b: &[u8]) -> (r: Option<Vec<(u8, bool)>>)
    ensures
        match decode_flags(b@) {
            Some(s) => r matches Some(v) && v@ == s,
            None => r is None,
        },
{
    if b.len() % 2 != 0 {
        return None;
    }
    let n = b.len() / 2;
    let mut out: Vec<(u8, bool)> = Vec::new();
    let mut i: usize = 0;
    while i < n
        invariant
            i <= n,
            n == b@.len() / 2,
            2 * n == b@.len() <= usize::MAX,
            b@.len() % 2 == 0,
            out@.len() == i,
            forall|k: int| 0 <= k < i ==> #[trigger] b@[2 * k + 1] <= 1,
            forall|k: int| 0 <= k < i ==> #[trigger] out@[k] == (b@[2 * k], b@[2 * k + 1] == 1),
        decreases n - i,
    {
        let flag = b[2 * i + 1];
        if flag > 1 {
            return None;
        }
        out.push((b[2 * i], flag == 1));
        i += 1;
    }
    assert(out@ =~= decode_flags(b@)->0);
    Some(out)
}

fn push_twists(out: &mut Vec<u8>, s: &Vec<(u8, i8)>)
    ensures
        final(out)@ == old(out)@ + encode_twists(s@),
{
    let ghost before = out@;
    let mut i: usize = 0;
    while i < s.len()
        invariant
            i <= s@.len(),
            out@ == before + encode_twists(s@.subrange(0, i as int)),
        decreases s@.len() - i,
    {
        let (index, delta) = s[i];
        let byte: u8 = if delta < 0 {
            (delta as i16 + 0x100) as u8
        } else {
            delta as u8
        };
        out.push(index);
        out.push(byte);
        proof {
            let a = encode_twists(s@.subrange(0, i as int));
            let b = encode_twists(s@.subrange(0, i + 1));
            assert forall|j: int| 0 <= j < b.len() implies b[j] == (a + seq![index, byte])[j] by {
                if j < 2 * i {
                    assert(j / 2 < i);
                } else {
                    assert(j / 2 == i);
                }
            }
            assert(b =~= a + seq![index, byte]);
            assert(out@ =~= before + b);
        }
        i += 1;
    }
    assert(s@.subrange(0, i as int) =~= s@);
}

fn read_twists(b: &[u8]) -> (r: Option<Vec<(u8, i8)>>)
    ensures
        match decode_twists(b@) {
            Some(s) => r matches Some(v) && v@ == s,
            None => r is None,
        },
{
    if b.len() % 2 != 0 {
        return None;
    }
    let n = b.len() / 2;
    let mut out: Vec<(u8, i8)> = Vec::new();
    let mut i: usize = 0;
    while i < n
        invariant
            i <= n,
            n == b@.len() / 2,
            2 * n == b@.len() <= usize::MAX,
            b@.len() % 2 == 0,
            out@.len() == i,
            forall|k: int|
                0 <= k < i ==> #[trigger] out@[k] == (b@[2 * k], byte_twist(b@[2 * k + 1])),
        decreases n - i,
    {
        let byte = b[2 * i + 1];
        let delta: i8 = if byte >= 0x80 {
            (byte as i16 - 0x100) as i8
        } else {
            byte as i8
        };
        out.push((b[2 * i], delta));
        i += 1;
    }
    assert(out@ =~= decode_twists(b@)->0);
    Some(out)
}

impl Wire for DeviceActions {
    open spec fn encoded(v: DeviceActionsView) -> Seq<u8> {
        encode_action(v)
    }

    open spec fn decoded(bytes: Seq<u8>) -> Option<DeviceActionsView> {
        decode_action(bytes)
    }

    proof fn round_trip(v: DeviceActionsView) {
        lemma_action_round_trip(v);
    }

    fn encode(&self) -> (r: Vec<u8>) {
        let mut out: Vec<u8> = Vec::new();
        out.push(VERSION);
        match self {
            DeviceActions::SetButtonImage(a) => {
                out.push(TAG_BUTTON_IMAGE);
                out.push(a.button);
                out.extend_from_slice(a.image.as_slice());
            },
            DeviceActions::SetLCDImage(a) => {
                out.push(TAG_LCD_IMAGE);
                push_be16(&mut out, a.x_offset);
                push_be16(&mut out, a.x_size);
                push_be16(&mut out, a.y_size);
                out.extend_from_slice(a.image.as_slice());
            },
            DeviceActions::SetBrightness(a) => {
                out.push(TAG_BRIGHTNESS);
                out.push(a.brightness);
            },
        }
        assert(out@ =~= encode_action(self@));
        out
    }

    fn decode(bytes: &[u8]) -> (r: Option<Self>) {
        let n = bytes.len();
        if n < 2 || bytes[0] != VERSION {
            return None;
        }
        let tag = bytes[1];
        if tag == TAG_BUTTON_IMAGE && n >= 3 {
            Some(
                DeviceActions::SetButtonImage(
                    SetButtonImage {
                        button: bytes[2],
                        image: slice_to_vec(slice_subrange(bytes, 3, n)),
                    },
                ),
            )
        } else if tag == TAG_LCD_IMAGE && n >= 8 {
            Some(
                DeviceActions::SetLCDImage(
                    SetLCDImage {
                        x_offset: read_be16(bytes[2], bytes[3]),
                        x_size: read_be16(bytes[4], bytes[5]),
                        y_size: read_be16(bytes[6], bytes[7]),
                        image: slice_to_vec(slice_subrange(bytes, 8, n)),
                    },
                ),
            )
        } else if tag == TAG_BRIGHTNESS && n == 3 {
            Some(DeviceActions::SetBrightness(SetBrightness { brightness: bytes[2] }))
        } else {
            None
        }
    }
}

impl Wire for Command {
    open spec fn encoded(v: CommandView) -> Seq<u8> {
        encode_event(v)
    }

    open spec fn decoded(bytes: Seq<u8>) -> Option<CommandView> {
        decode_event(bytes)
    }

    proof fn round_trip(v: CommandView) {
        lemma_event_round_trip(v);
    }

    fn encode(&self) -> (r: Vec<u8>) {
        let mut out: Vec<u8> = Vec::new();
        out.push(VERSION);
        match self {
            Command::Config(c) => {
                out.push(TAG_CONFIG);
                push_be16(&mut out, c.pid);
                out.extend_from_slice(c.device_id.as_str().as_bytes());
            },
            Command::ButtonChange(c) => {
                out.push(TAG_BUTTON_CHANGE);
                push_flags(&mut out, &c.buttons);
            },
            Command::EncoderChange(c) => {
                out.push(TAG_ENCODER_CHANGE);
                push_flags(&mut out, &c.encoders);
            },
            Command::EncoderTwist(c) => {
                out.push(TAG_ENCODER_TWIST);
                push_twists(&mut out, &c.encoders);
            },
        }
        assert(out@ =~= encode_event(self@));
        out
    }

    fn decode(bytes: &[u8]) -> (r: Option<Self>) {
        let n = bytes.len();
        if n < 2 || bytes[0] != VERSION {
            return None;
        }
        let tag = bytes[1];
        if tag == TAG_CONFIG {
            if n < 4 {
                return None;
            }
            match string_from_utf8(slice_to_vec(slice_subrange(bytes, 4, n))) {
                Some(device_id) => Some(
                    Command::Config(RemoteConfig { pid: read_be16(bytes[2], bytes[3]), device_id }),
                ),
                None => None,
            }
        } else if tag == TAG_BUTTON_CHANGE {
            match read_flags(slice_subrange(bytes, 2, n)) {
                Some(buttons) => Some(Command::ButtonChange(ButtonChange { buttons })),
                None => None,
            }
        } else if tag == TAG_ENCODER_CHANGE {
            match read_flags(slice_subrange(bytes, 2, n)) {
                Some(encoders) => Some(Command::EncoderChange(EncoderChange { encoders })),
                None => None,
            }
        } else if tag == TAG_ENCODER_TWIST {
            match read_twists(slice_subrange(bytes, 2, n)) {
                Some(encoders) => Some(Command::EncoderTwist(EncoderTwist { encoders })),
                None => None,
            }
        } else {
            None
        }
    }
}

} // verus!
