//! The leaf on a microcontroller: it gets the stream one byte at a time and
//! drives a deck of the second generation.

use vstd::prelude::*;
use crate::bin_comm::{be32, be32_value, framed, lemma_be32_round_trip, write_length_prefix,
    FrameError};
use vstd::utf8::*;
use crate::hid::{brightness_report_spec, feature_report_sent, image_written, reset_report_spec,
    serial_request, text_bytes, text_of_report, zeros, HidDevice, HidError, StreamDeck,
    StreamDeckError};
use crate::leaf_comm::{Command, CommandView, DeviceActions, DeviceActionsView, RemoteConfig};
use crate::wire::Wire;

verus! {

/// The state of an accumulator: the bytes it holds, and the length of the
/// payload once the length of the frame was read.
pub struct Accumulated {
    pub buf: Seq<u8>,
    pub size: Option<usize>,
}

/// Puts a frame together from single bytes.
#[derive(Debug)]
pub struct FrameAccumulator {
    buf: Vec<u8>,
    size: Option<usize>,
}

/// One byte more: the state after it, and the payload where the byte
/// completes a frame.
///
/// The first four bytes are the length. A length of 0 completes an empty
/// frame at once. Otherwise the bytes of the length are dropped, and the
/// frame is complete with the byte that brings the payload to that length.
pub open spec fn accumulate(s: Accumulated, c: u8) -> (Accumulated, Option<Seq<u8>>) {
    let b = s.buf.push(c);
    match s.size {
        Some(n) => (
            Accumulated { buf: b, size: s.size },
            if b.len() == n {
                Some(b)
            } else {
                None
            },
        ),
        None => if b.len() == 4 {
            if be32_value(b) != 0 {
                (Accumulated { buf: Seq::empty(), size: Some(be32_value(b) as usize) }, None)
            } else {
                (Accumulated { buf: b, size: None }, Some(Seq::empty()))
            }
        } else {
            (Accumulated { buf: b, size: None }, None)
        },
    }
}

/// The state after the bytes `bytes`, and what the last of them completed.
pub open spec fn fed(s: Accumulated, bytes: Seq<u8>) -> (Accumulated, Option<Seq<u8>>)
    decreases bytes.len(),
{
    if bytes.len() == 0 {
        (s, None)
    } else {
        accumulate(fed(s, bytes.drop_last()).0, bytes.last())
    }
}

/// The state in which an accumulator starts, and to which it is cleared.
pub open spec fn cleared() -> Accumulated {
    Accumulated { buf: Seq::empty(), size: None }
}

proof fn lemma_fed_prefix(payload: Seq<u8>, k: int)
    requires
        payload.len() <= 0xffff_ffff,
        0 <= k <= 4 + payload.len(),
    ensures
        ({
            let (s, out) = fed(cleared(), framed(payload).subrange(0, k));
            let n = payload.len();
            &&& k < 4 ==> s == (Accumulated { buf: framed(payload).subrange(0, k), size: None })
                && out is None
            &&& k >= 4 && n > 0 ==> s == (Accumulated {
                buf: payload.subrange(0, k - 4),
                size: Some(n as usize),
            })
            &&& k >= 4 && n > 0 && k < 4 + n ==> out is None
            &&& k == 4 + n ==> out == Some(payload)
        }),
    decreases k,
{
    let f = framed(payload);
    let n = payload.len() as int;
    lemma_be32_round_trip(n);
    if k > 0 {
        lemma_fed_prefix(payload, k - 1);
        let bytes = f.subrange(0, k);
        assert(bytes.drop_last() =~= f.subrange(0, k - 1));
        assert(bytes.last() == f[k - 1]);
        let before = fed(cleared(), f.subrange(0, k - 1)).0;
        if k <= 4 {
            assert(before.buf.push(f[k - 1]) =~= f.subrange(0, k));
            if k == 4 {
                assert(f.subrange(0, 4) =~= be32(n));
                assert(payload.subrange(0, 0) =~= Seq::<u8>::empty());
                if n == 0 {
                    assert(payload =~= Seq::<u8>::empty());
                }
            }
        } else {
            assert(f[k - 1] == payload[k - 5]);
            assert(before.buf.push(f[k - 1]) =~= payload.subrange(0, k - 4));
            if k == 4 + n {
                assert(payload.subrange(0, n) =~= payload);
            }
        }
    } else {
        assert(f.subrange(0, 0) =~= Seq::<u8>::empty());
    }
}

/// A frame that is fed to a cleared accumulator byte by byte is complete
/// with its last byte, with the payload that was framed.
pub proof fn lemma_accumulates_frame(payload: Seq<u8>)
    requires
        payload.len() <= 0xffff_ffff,
    ensures
        fed(cleared(), framed(payload)).1 == Some(payload),
{
    lemma_fed_prefix(payload, 4 + payload.len() as int);
    assert(framed(payload).subrange(0, 4 + payload.len() as int) =~= framed(payload));
}

impl View for FrameAccumulator {
    type V = Accumulated;

    closed spec fn view(&self) -> Accumulated {
        Accumulated { buf: self.buf@, size: self.size }
    }
}

impl FrameAccumulator {
    /// An accumulator that holds nothing.
    pub fn new() -> (r: Self)
        ensures
            r@ == cleared(),
    {
        FrameAccumulator { buf: Vec::new(), size: None }
    }

    /// Forgets what was accumulated.
    pub fn clear(&mut self)
        ensures
            final(self)@ == cleared(),
    {
        self.buf.clear();
        self.size = None;
    }

    /// Takes one byte of the stream, and returns the payload where the byte
    /// completes a frame: [`accumulate`]. After a complete frame the
    /// accumulator is to be cleared.
    pub fn add_char(&mut self, c: u8) -> (r: Option<Vec<u8>>)
        ensures
            final(self)@ == accumulate(old(self)@, c).0,
            match accumulate(old(self)@, c).1 {
                Some(payload) => r matches Some(v) && v@ == payload,
                None => r is None,
            },
    {
        self.buf.push(c);
        match self.size {
            Some(size) => {
                if self.buf.len() == size {
                    Some(self.buf.clone())
                } else {
                    None
                }
            },
            None => {
                if self.buf.len() == 4 {
                    let size: u32 = (self.buf[0] as u32) * 0x1000000 + (self.buf[1] as u32) * 0x10000
                        + (self.buf[2] as u32) * 0x100 + (self.buf[3] as u32);
                    if size != 0 {
                        self.size = Some(size as usize);
                        self.buf.clear();
                        None
                    } else {
                        Some(Vec::new())
                    }
                } else {
                    None
                }
            },
        }
    }
}

/// The longest payload that the leaf writes.
pub const MAX_PAYLOAD: usize = 128;

/// The frame that the leaf writes for a message, where its encoding is short
/// enough for the leaf's buffer.
pub open spec fn frame_written<T: Wire>(v: T::V) -> Result<Seq<u8>, FrameError> {
    if T::encoded(v).len() <= MAX_PAYLOAD {
        Ok(framed(T::encoded(v)))
    } else {
        Err(FrameError::TooLong)
    }
}

/// Builds the frame that the leaf writes for a message.
pub fn frame_write<T: Wire>(data: &T) -> (r: Result<Vec<u8>, FrameError>)
    ensures
        match frame_written::<T>(data@) {
            Ok(bytes) => r matches Ok(v) && v@ == bytes,
            Err(e) => r matches Err(err) && err == e,
        },
{
    let payload = data.encode();
    if payload.len() > MAX_PAYLOAD {
        return Err(FrameError::TooLong);
    }
    let mut out: Vec<u8> = Vec::new();
    match write_length_prefix(&mut out, payload.as_slice()) {
        Ok(_) => {
            assert(out@ =~= framed(T::encoded(data@)));
            Ok(out)
        },
        Err(e) => Err(e),
    }
}

/// Why the leaf gave up.
#[derive(Debug)]
pub enum TeensyError {
    /// The deck did not tell its serial number.
    SerialNumber,
    /// The configuration does not fit a frame of the leaf.
    Config,
    /// The deck refused to be reset.
    Reset,
    /// The deck refused the brightness.
    Brightness,
    /// A frame says nothing that the leaf understands.
    BadFrame,
    /// The deck refused an image.
    Image,
}

/// How the start of the leaf ends, from what the deck's serial number read
/// as.
///
/// Without a serial number the leaf gives up. With one, the deck is
/// announced by its product id and that serial number; where the
/// announcement does not fit a frame of the leaf, it gives up. Then the deck
/// is sent the report that resets it, and, where it accepts, the report that
/// sets its brightness to 10 percent; the leaf gives up where the deck
/// refuses either. Where the deck accepts both, the start ends with the
/// frame of the announcement.
pub open spec fn started<D: HidDevice>(
    deck: &StreamDeck<D>,
    serial: Result<Seq<u8>, StreamDeckError>,
    r: Result<Vec<u8>, TeensyError>,
) -> bool {
    match serial {
        Err(_) => r matches Err(TeensyError::SerialNumber),
        Ok(text) => match frame_written::<Command>(announcement(decode_utf8(text))) {
            Err(_) => r matches Err(TeensyError::Config),
            Ok(frame) => exists|reset: Result<(), HidError>|
                {
                    &&& #[trigger] feature_report_sent(
                        &deck.spec_device(),
                        reset_report_spec(deck.kind()),
                        reset,
                    )
                    &&& match reset {
                        Err(_) => r matches Err(TeensyError::Reset),
                        Ok(_) => exists|dim: Result<(), HidError>|
                            {
                                &&& #[trigger] feature_report_sent(
                                    &deck.spec_device(),
                                    brightness_report_spec(deck.kind(), 10),
                                    dim,
                                )
                                &&& match dim {
                                    Err(_) => r matches Err(TeensyError::Brightness),
                                    Ok(_) => r matches Ok(f) && f@ == frame,
                                }
                            },
                    }
                },
        },
    }
}

/// Starts the leaf on its deck: asks the deck for its serial number, resets
/// it, sets its brightness to 10 percent, and returns the frame that
/// announces the deck, by its product id and its serial number, to the
/// gateway. The deck is asked for the feature report that holds its serial
/// number, and the start ends as [`started`] says of the deck's answer.
pub fn run_teensy_start<D: HidDevice>(deck: &StreamDeck<D>) -> (r: Result<Vec<u8>, TeensyError>)
    ensures
        exists|buf: &mut [u8], asked: Result<(), HidError>|
            {
                &&& buf@ == seq![serial_request(deck.kind()).0] + zeros(serial_request(deck.kind()).1)
                &&& #[trigger] call_ensures(D::get_feature_report, (&deck.spec_device(), buf), asked)
                &&& started(
                    deck,
                    text_of_report(asked, final(buf)@, serial_request(deck.kind()).2),
                    r,
                )
            },
{
    let serial = deck.serial_number();
    let ghost read = text_bytes(serial);
    let serial_number = match serial {
        Ok(s) => s,
        Err(_) => {
            return Err(TeensyError::SerialNumber);
        },
    };
    proof {
        encode_utf8_decode_utf8(serial_number@);
    }
    let config = Command::Config(RemoteConfig { pid: 0x0080, device_id: serial_number });
    let frame = match frame_write(&config) {
        Ok(f) => f,
        Err(_) => {
            assert(started(deck, read, Err::<Vec<u8>, TeensyError>(TeensyError::Config)));
            return Err(TeensyError::Config);
        },
    };
    let reset = deck.reset();
    match reset {
        Ok(_) => {},
        Err(_) => {
            assert(started(deck, read, Err::<Vec<u8>, TeensyError>(TeensyError::Reset)));
            return Err(TeensyError::Reset);
        },
    }
    let dim = deck.set_brightness(10);
    match dim {
        Ok(_) => {},
        Err(_) => {
            assert(started(deck, read, Err::<Vec<u8>, TeensyError>(TeensyError::Brightness)));
            return Err(TeensyError::Brightness);
        },
    }
    assert(started(deck, read, Ok::<Vec<u8>, TeensyError>(frame)));
    Ok(frame)
}

/// The configuration that the leaf announces for a deck with this serial
/// number.
pub open spec fn announcement(serial: Seq<char>) -> CommandView {
    CommandView::Config { pid: 0x0080, device_id: serial }
}

/// How a step ends that tells the deck an action: where the deck accepts, the
/// accumulator is cleared and the step succeeds; where it refuses, the
/// accumulator stays as the byte left it and the step fails with `refusal`.
pub open spec fn told(
    accepted: bool,
    left: Accumulated,
    r: Result<(), TeensyError>,
    after: Accumulated,
    refusal: TeensyError,
) -> bool {
    if accepted {
        after == cleared() && r is Ok
    } else {
        after == left && r == Err::<(), TeensyError>(refusal)
    }
}

/// A step that sets the brightness: the deck is sent the report that sets
/// it, and the step ends as the deck answers.
pub open spec fn brightness_stepped<D: HidDevice>(
    deck: &StreamDeck<D>,
    brightness: u8,
    left: Accumulated,
    r: Result<(), TeensyError>,
    after: Accumulated,
) -> bool {
    exists|outcome: Result<(), HidError>|
        {
            &&& #[trigger] feature_report_sent(
                &deck.spec_device(),
                brightness_report_spec(deck.kind(), brightness),
                outcome,
            )
            &&& told(outcome is Ok, left, r, after, TeensyError::Brightness)
        }
}

/// A step that shows an image on a button: the image is written to the deck
/// as [`image_written`] says, and the step ends as that ends.
pub open spec fn image_stepped<D: HidDevice>(
    deck: &StreamDeck<D>,
    button: u8,
    image: Seq<u8>,
    left: Accumulated,
    r: Result<(), TeensyError>,
    after: Accumulated,
) -> bool {
    exists|written: Result<(), StreamDeckError>|
        {
            &&& #[trigger] image_written(&deck.spec_device(), deck.kind(), button, image, written)
            &&& told(written is Ok, left, r, after, TeensyError::Image)
        }
}

/// One step of the leaf: the result `r` and the accumulator `after` the byte
/// `value`, from the accumulator `before` it.
///
/// A byte that completes no frame is accumulated, and that is all. A frame
/// that says nothing is an error, and the accumulator stays as the byte left
/// it. A frame that says an action is carried out on the deck: an image for
/// a button is written to it, a brightness is set on it, and an image for
/// the LCD strip is dropped.
pub open spec fn stepped<D: HidDevice>(
    deck: &StreamDeck<D>,
    before: Accumulated,
    value: u8,
    r: Result<(), TeensyError>,
    after: Accumulated,
) -> bool {
    let left = accumulate(before, value).0;
    match accumulate(before, value).1 {
        None => after == left && r is Ok,
        Some(payload) => match DeviceActions::decoded(payload) {
            None => after == left && r matches Err(TeensyError::BadFrame),
            Some(DeviceActionsView::SetLCDImage { .. }) => after == cleared() && r is Ok,
            Some(DeviceActionsView::SetBrightness { brightness }) => brightness_stepped(
                deck,
                brightness,
                left,
                r,
                after,
            ),
            Some(DeviceActionsView::SetButtonImage { button, image }) => image_stepped(
                deck,
                button,
                image,
                left,
                r,
                after,
            ),
        },
    }
}

/// Takes one byte from the gateway: [`stepped`].
pub fn run_teensy_step<D: HidDevice>(
    deck: &StreamDeck<D>,
    accumulator: &mut FrameAccumulator,
    value: u8,
) -> (r: Result<(), TeensyError>)
    ensures
        stepped(deck, old(accumulator)@, value, r, final(accumulator)@),
{
    let frame = match accumulator.add_char(value) {
        Some(f) => f,
        None => {
            return Ok(());
        },
    };
    let action = match DeviceActions::decode(frame.as_slice()) {
        Some(a) => a,
        None => {
            return Err(TeensyError::BadFrame);
        },
    };
    let ghost left = accumulator@;
    match action {
        DeviceActions::SetButtonImage(b) => {
            let written = deck.write_image(b.button, b.image.as_slice());
            match written {
                Ok(_) => {
                    accumulator.clear();
                    assert(image_stepped(deck, b.button, b.image@, left, Ok(()), accumulator@));
                    Ok(())
                },
                Err(_) => {
                    let r = Err(TeensyError::Image);
                    assert(image_stepped(deck, b.button, b.image@, left, r, accumulator@));
                    r
                },
            }
        },
        DeviceActions::SetLCDImage(_) => {
            accumulator.clear();
            Ok(())
        },
        DeviceActions::SetBrightness(b) => {
            let set = deck.set_brightness(b.brightness);
            match set {
                Ok(_) => {
                    accumulator.clear();
                    assert(brightness_stepped(deck, b.brightness, left, Ok(()), accumulator@));
                    Ok(())
                },
                Err(_) => {
                    let r = Err(TeensyError::Brightness);
                    assert(brightness_stepped(deck, b.brightness, left, r, accumulator@));
                    r
                },
            }
        },
    }
}

} // verus!
