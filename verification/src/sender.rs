//! What the bridge tells the controller: the lines that register a device and
//! that report its buttons and encoders.

use vstd::prelude::*;
use vstd::string::*;
use crate::companion::DeviceMsg;
use crate::leaf_comm::{ButtonChange, EncoderTwist, RemoteConfig};
use crate::receiver::DeviceShape;
use crate::text::{decimal, push_decimal};

verus! {

/// The line that reports the state of one button.
pub open spec fn key_press_line(device_id: Seq<char>, index: u8, pressed: bool) -> Seq<char> {
    "KEY-PRESS DEVICEID="@ + device_id + " KEY="@ + decimal(index as nat) + " PRESSED="@ + decimal(
        if pressed {
            1
        } else {
            0
        },
    ) + "\n"@
}

/// The lines that report a list of buttons, in the order of the list.
pub open spec fn key_press_lines(device_id: Seq<char>, buttons: Seq<(u8, bool)>) -> Seq<char>
    decreases buttons.len(),
{
    if buttons.len() == 0 {
        Seq::empty()
    } else {
        key_press_lines(device_id, buttons.drop_last()) + key_press_line(
            device_id,
            buttons.last().0,
            buttons.last().1,
        )
    }
}

/// The line that reports one step of an encoder: direction 0 for a negative
/// step count, 1 otherwise.
pub open spec fn key_rotate_line(device_id: Seq<char>, index: u8, delta: i8) -> Seq<char> {
    "KEY-ROTATE DEVICEID="@ + device_id + " KEY="@ + decimal(index as nat) + " DIRECTION="@
        + decimal(
        if delta < 0 {
            0
        } else {
            1
        },
    ) + "\n"@
}

/// A line `n` times over.
pub open spec fn repeated(line: Seq<char>, n: nat) -> Seq<char>
    decreases n,
{
    if n == 0 {
        Seq::empty()
    } else {
        repeated(line, (n - 1) as nat) + line
    }
}

/// The distance of a step count from 0.
pub open spec fn magnitude(delta: i8) -> nat {
    if delta < 0 {
        (-delta) as nat
    } else {
        delta as nat
    }
}

/// The lines that report a list of turned encoders: for each, in the order of
/// the list, one line per step.
pub open spec fn key_rotate_lines(device_id: Seq<char>, encoders: Seq<(u8, i8)>) -> Seq<char>
    decreases encoders.len(),
{
    if encoders.len() == 0 {
        Seq::empty()
    } else {
        key_rotate_lines(device_id, encoders.drop_last()) + repeated(
            key_rotate_line(device_id, encoders.last().0, encoders.last().1),
            magnitude(encoders.last().1),
        )
    }
}

/// The keep-alive line.
pub fn ping() -> (r: &'static str)
    ensures
        r@ == "PING\n"@,
{
    "PING\n"
}

/// The sending side of one device's connection to the controller.
#[derive(Debug, Clone)]
pub struct Sender {
    device_id: String,
}

impl Sender {
    /// The id that the device goes by.
    pub closed spec fn device_id(&self) -> Seq<char> {
        self.device_id@
    }

    /// The registration of a device: what it tells the controller about
    /// itself, from its configuration, its shape and the name of its kind.
    pub open spec fn registration(config: RemoteConfig, shape: DeviceShape, kind_name: Seq<char>) -> Seq<
        char,
    > {
        "ADD-DEVICE DEVICEID="@ + config.device_id@ + " PRODUCT_NAME=\"RustSatellite StreamDeck: "@
            + kind_name + "\" KEYS_TOTAL="@ + decimal(shape.key_count as nat) + ", KEYS_PER_ROW="@
            + decimal(shape.columns as nat) + " BITMAPS="@ + decimal(shape.image_width as nat)
            + " COLORS=0 TEXT=0\n"@
    }

    /// A sender for the device of `config`, and the line that registers the
    /// device with the controller.
    pub fn new(config: &RemoteConfig, shape: &DeviceShape, kind_name: &str) -> (r: (Sender, String))
        ensures
            r.0.device_id() == config.device_id@,
            r.1@ == Self::registration(*config, *shape, kind_name@),
    {
        let mut product_name = String::new();
        product_name.append("RustSatellite StreamDeck: ");
        product_name.append(kind_name);
        let msg = DeviceMsg {
            device_id: config.device_id.clone(),
            product_name,
            keys_total: shape.key_count,
            keys_per_row: shape.columns,
            resolution: shape.image_width,
        };
        let mut line = String::new();
        line.append("ADD-DEVICE ");
        line.append(msg.device_msg().as_str());
        line.append("\n");
        proof {
            reveal_strlit("ADD-DEVICE ");
            reveal_strlit("DEVICEID=");
            reveal_strlit("ADD-DEVICE DEVICEID=");
            reveal_strlit(" PRODUCT_NAME=\"");
            reveal_strlit("RustSatellite StreamDeck: ");
            reveal_strlit(" PRODUCT_NAME=\"RustSatellite StreamDeck: ");
            reveal_strlit(" COLORS=0 TEXT=0");
            reveal_strlit("\n");
            reveal_strlit(" COLORS=0 TEXT=0\n");
            assert("ADD-DEVICE "@ + "DEVICEID="@ =~= "ADD-DEVICE DEVICEID="@);
            assert(" PRODUCT_NAME=\""@ + "RustSatellite StreamDeck: "@
                =~= " PRODUCT_NAME=\"RustSatellite StreamDeck: "@);
            assert(" COLORS=0 TEXT=0"@ + "\n"@ =~= " COLORS=0 TEXT=0\n"@);
            assert(line@ =~= Self::registration(*config, *shape, kind_name@));
        }
        (Sender { device_id: config.device_id.clone() }, line)
    }

    /// The text that reports a list of buttons: one line each.
    pub fn button_change(&self, buttons: &ButtonChange) -> (r: String)
        ensures
            r@ == key_press_lines(self.device_id(), buttons.buttons@),
    {
        let mut out = String::new();
        let mut i: usize = 0;
        while i < buttons.buttons.len()
            invariant
                i <= buttons.buttons@.len(),
                out@ == key_press_lines(self.device_id(), buttons.buttons@.subrange(0, i as int)),
            decreases buttons.buttons@.len() - i,
        {
            let (index, pressed) = buttons.buttons[i];
            let ghost before = out@;
            out.append("KEY-PRESS DEVICEID=");
            out.append(self.device_id.as_str());
            out.append(" KEY=");
            push_decimal(&mut out, index as u64);
            out.append(" PRESSED=");
            push_decimal(&mut out, if pressed { 1 } else { 0 });
            out.append("\n");
            proof {
                assert(buttons.buttons@.subrange(0, i + 1).drop_last()
                    =~= buttons.buttons@.subrange(0, i as int));
                assert(out@ =~= before + key_press_line(self.device_id(), index, pressed));
            }
            i += 1;
        }
        assert(buttons.buttons@.subrange(0, i as int) =~= buttons.buttons@);
        out
    }

    /// The text that reports a list of turned encoders: for each encoder one
    /// line per step, with the direction that the sign of its step count
    /// gives.
    pub fn encoder_twist(&self, encoders: &EncoderTwist) -> (r: String)
        ensures
            r@ == key_rotate_lines(self.device_id(), encoders.encoders@),
    {
        let mut out = String::new();
        let mut i: usize = 0;
        while i < encoders.encoders.len()
            invariant
                i <= encoders.encoders@.len(),
                out@ == key_rotate_lines(
                    self.device_id(),
                    encoders.encoders@.subrange(0, i as int),
                ),
            decreases encoders.encoders@.len() - i,
        {
            let (index, delta) = encoders.encoders[i];
            let count: u16 = if delta < 0 {
                (-(delta as i16)) as u16
            } else {
                delta as u16
            };
            let mut line = String::new();
            line.append("KEY-ROTATE DEVICEID=");
            line.append(self.device_id.as_str());
            line.append(" KEY=");
            push_decimal(&mut line, index as u64);
            line.append(" DIRECTION=");
            push_decimal(&mut line, if delta < 0 { 0 } else { 1 });
            line.append("\n");
            assert(line@ =~= key_rotate_line(self.device_id(), index, delta));
            let ghost before = out@;
            let mut k: u16 = 0;
            while k < count
                invariant
                    k <= count,
                    out@ == before + repeated(line@, k as nat),
                decreases count - k,
            {
                out.append(line.as_str());
                assert(out@ =~= before + repeated(line@, (k + 1) as nat));
                k += 1;
            }
            proof {
                assert(encoders.encoders@.subrange(0, i + 1).drop_last()
                    =~= encoders.encoders@.subrange(0, i as int));
            }
            i += 1;
        }
        assert(encoders.encoders@.subrange(0, i as int) =~= encoders.encoders@);
        out
    }
}

} // verus!
