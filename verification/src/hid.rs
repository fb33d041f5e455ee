//! The report protocol of the button decks, over any HID transport: what the
//! kinds of deck look like, how their input reports read, and how an image is
//! cut into output reports.

use vstd::prelude::*;
use vstd::string::*;
use vstd::utf8::*;
use vstd::slice::{slice_subrange, slice_to_vec};
use vstd::std_specs::convert::FromSpecImpl;
use crate::receiver::DeviceShape;
use crate::text::{lemma_ascii_is_boundary, lemma_boundary_after_ascii, lemma_encode_concat,
    lemma_str_ends, slice, string_from_utf8};

verus! {

/// A transport failed.
#[derive(Debug)]
pub struct HidError {}

/// Why an operation on a deck failed.
#[derive(Debug)]
pub enum StreamDeckError {
    /// The transport failed.
    HidError(HidError),
    /// A report holds text that is not UTF-8.
    Utf8Error,
    /// The deck has no display to write an image to.
    NoScreen,
    /// The deck has no key with this index.
    InvalidKeyIndex,
    /// The product id is that of no known deck.
    UnrecognizedPID,
    /// The deck cannot do this.
    UnsupportedOperation,
    /// The deck sent a report that cannot be read.
    BadData,
}

impl From<HidError> for StreamDeckError {
    fn from(e: HidError) -> (r: Self) {
        StreamDeckError::HidError(e)
    }
}

impl FromSpecImpl<HidError> for StreamDeckError {
    open spec fn obeys_from_spec() -> bool {
        true
    }

    open spec fn from_spec(e: HidError) -> Self {
        StreamDeckError::HidError(e)
    }
}

/// The kinds of deck.
#[derive(Debug, Clone, Copy, PartialEq, Eq, Structural)]
pub enum Kind {
    Original,
    OriginalV2,
    Mini,
    Xl,
    XlV2,
    Mk2,
    MiniMk2,
    Pedal,
    Plus,
}

impl Kind {
    /// The kind with the given product id.
    pub open spec fn spec_from_pid(pid: u16) -> Option<Kind> {
        if pid == 0x0060 {
            Some(Kind::Original)
        } else if pid == 0x006d {
            Some(Kind::OriginalV2)
        } else if pid == 0x0063 {
            Some(Kind::Mini)
        } else if pid == 0x006c {
            Some(Kind::Xl)
        } else if pid == 0x008f {
            Some(Kind::XlV2)
        } else if pid == 0x0080 {
            Some(Kind::Mk2)
        } else if pid == 0x0090 {
            Some(Kind::MiniMk2)
        } else if pid == 0x0086 {
            Some(Kind::Pedal)
        } else if pid == 0x0084 {
            Some(Kind::Plus)
        } else {
            None
        }
    }

    /// The kind with the given product id.
    #[verifier::when_used_as_spec(spec_from_pid)]
    pub fn from_pid(pid: u16) -> (r: Option<Kind>)
        ensures
            r == Self::spec_from_pid(pid),
    {
        if pid == 0x0060 {
            Some(Kind::Original)
        } else if pid == 0x006d {
            Some(Kind::OriginalV2)
        } else if pid == 0x0063 {
            Some(Kind::Mini)
        } else if pid == 0x006c {
            Some(Kind::Xl)
        } else if pid == 0x008f {
            Some(Kind::XlV2)
        } else if pid == 0x0080 {
            Some(Kind::Mk2)
        } else if pid == 0x0090 {
            Some(Kind::MiniMk2)
        } else if pid == 0x0086 {
            Some(Kind::Pedal)
        } else if pid == 0x0084 {
            Some(Kind::Plus)
        } else {
            None
        }
    }

    /// The product id of the kind.
    pub open spec fn spec_product_id(&self) -> u16 {
        match self {
            Kind::Original => 0x0060,
            Kind::OriginalV2 => 0x006d,
            Kind::Mini => 0x0063,
            Kind::Xl => 0x006c,
            Kind::XlV2 => 0x008f,
            Kind::Mk2 => 0x0080,
            Kind::MiniMk2 => 0x0090,
            Kind::Pedal => 0x0086,
            Kind::Plus => 0x0084,
        }
    }

    /// The product id of the kind.
    #[verifier::when_used_as_spec(spec_product_id)]
    pub fn product_id(&self) -> (r: u16)
        ensures
            r == self.spec_product_id(),
    {
        match self {
            Kind::Original => 0x0060,
            Kind::OriginalV2 => 0x006d,
            Kind::Mini => 0x0063,
            Kind::Xl => 0x006c,
            Kind::XlV2 => 0x008f,
            Kind::Mk2 => 0x0080,
            Kind::MiniMk2 => 0x0090,
            Kind::Pedal => 0x0086,
            Kind::Plus => 0x0084,
        }
    }

    /// Number of keys.
    pub open spec fn spec_key_count(&self) -> u8 {
        match self {
            Kind::Original | Kind::OriginalV2 | Kind::Mk2 => 15,
            Kind::Mini | Kind::MiniMk2 => 6,
            Kind::Xl | Kind::XlV2 => 32,
            Kind::Pedal => 3,
            Kind::Plus => 8,
        }
    }

    /// Number of keys.
    #[verifier::when_used_as_spec(spec_key_count)]
    pub fn key_count(&self) -> (r: u8)
        ensures
            r == self.spec_key_count(),
    {
        match self {
            Kind::Original | Kind::OriginalV2 | Kind::Mk2 => 15,
            Kind::Mini | Kind::MiniMk2 => 6,
            Kind::Xl | Kind::XlV2 => 32,
            Kind::Pedal => 3,
            Kind::Plus => 8,
        }
    }

    /// Number of rows of keys.
    pub open spec fn spec_row_count(&self) -> u8 {
        match self {
            Kind::Original | Kind::OriginalV2 | Kind::Mk2 => 3,
            Kind::Mini | Kind::MiniMk2 => 2,
            Kind::Xl | Kind::XlV2 => 4,
            Kind::Pedal => 1,
            Kind::Plus => 2,
        }
    }

    /// Number of rows of keys.
    #[verifier::when_used_as_spec(spec_row_count)]
    pub fn row_count(&self) -> (r: u8)
        ensures
            r == self.spec_row_count(),
    {
        match self {
            Kind::Original | Kind::OriginalV2 | Kind::Mk2 => 3,
            Kind::Mini | Kind::MiniMk2 => 2,
            Kind::Xl | Kind::XlV2 => 4,
            Kind::Pedal => 1,
            Kind::Plus => 2,
        }
    }

    /// Number of keys in a row.
    pub open spec fn spec_column_count(&self) -> u8 {
        match self {
            Kind::Original | Kind::OriginalV2 | Kind::Mk2 => 5,
            Kind::Mini | Kind::MiniMk2 => 3,
            Kind::Xl | Kind::XlV2 => 8,
            Kind::Pedal => 3,
            Kind::Plus => 4,
        }
    }

    /// Number of keys in a row.
    #[verifier::when_used_as_spec(spec_column_count)]
    pub fn column_count(&self) -> (r: u8)
        ensures
            r == self.spec_column_count(),
    {
        match self {
            Kind::Original | Kind::OriginalV2 | Kind::Mk2 => 5,
            Kind::Mini | Kind::MiniMk2 => 3,
            Kind::Xl | Kind::XlV2 => 8,
            Kind::Pedal => 3,
            Kind::Plus => 4,
        }
    }

    /// Number of rotary encoders.
    pub open spec fn spec_encoder_count(&self) -> u8 {
        match self {
            Kind::Plus => 4,
            _ => 0,
        }
    }

    /// Number of rotary encoders.
    #[verifier::when_used_as_spec(spec_encoder_count)]
    pub fn encoder_count(&self) -> (r: u8)
        ensures
            r == self.spec_encoder_count(),
    {
        match self {
            Kind::Plus => 4,
            _ => 0,
        }
    }

    /// Width and height of the LCD strip, where the kind has one.
    pub open spec fn spec_lcd_strip_size(&self) -> Option<(u16, u16)> {
        match self {
            Kind::Plus => Some((800u16, 100u16)),
            _ => None,
        }
    }

    /// Width and height of the LCD strip, where the kind has one.
    #[verifier::when_used_as_spec(spec_lcd_strip_size)]
    pub fn lcd_strip_size(&self) -> (r: Option<(u16, u16)>)
        ensures
            r == self.spec_lcd_strip_size(),
    {
        match self {
            Kind::Plus => Some((800u16, 100u16)),
            _ => None,
        }
    }

    /// Whether the keys have displays.
    pub open spec fn spec_is_visual(&self) -> bool {
        !(self is Pedal)
    }

    /// Whether the keys have displays.
    #[verifier::when_used_as_spec(spec_is_visual)]
    pub fn is_visual(&self) -> (r: bool)
        ensures
            r == self.spec_is_visual(),
    {
        match self {
            Kind::Pedal => false,
            _ => true,
        }
    }

    /// Width and height of a key's image in pixels; 0 by 0 without displays.
    pub open spec fn spec_key_image_size(&self) -> (u16, u16) {
        match self {
            Kind::Original | Kind::OriginalV2 | Kind::Mk2 => (72u16, 72u16),
            Kind::Mini | Kind::MiniMk2 => (80u16, 80u16),
            Kind::Xl | Kind::XlV2 => (96u16, 96u16),
            Kind::Plus => (120u16, 120u16),
            Kind::Pedal => (0u16, 0u16),
        }
    }

    /// Width and height of a key's image in pixels; 0 by 0 without displays.
    #[verifier::when_used_as_spec(spec_key_image_size)]
    pub fn key_image_size(&self) -> (r: (u16, u16))
        ensures
            r == self.spec_key_image_size(),
    {
        match self {
            Kind::Original | Kind::OriginalV2 | Kind::Mk2 => (72u16, 72u16),
            Kind::Mini | Kind::MiniMk2 => (80u16, 80u16),
            Kind::Xl | Kind::XlV2 => (96u16, 96u16),
            Kind::Plus => (120u16, 120u16),
            Kind::Pedal => (0u16, 0u16),
        }
    }

    /// The shape of the kind, as routing needs it.
    pub fn shape(&self) -> (r: DeviceShape)
        ensures
            r == (DeviceShape {
                key_count: self.key_count(),
                columns: self.column_count(),
                encoder_count: self.encoder_count(),
                lcd_strip: self.lcd_strip_size(),
                image_width: self.key_image_size().0,
                image_height: self.key_image_size().1,
            }),
    {
        let size = self.key_image_size();
        DeviceShape {
            key_count: self.key_count(),
            columns: self.column_count(),
            encoder_count: self.encoder_count(),
            lcd_strip: self.lcd_strip_size(),
            image_width: size.0,
            image_height: size.1,
        }
    }
}

/// A kind is found again by its product id.
pub proof fn lemma_kind_by_pid(kind: Kind)
    ensures
        Kind::from_pid(kind.product_id()) == Some(kind),
{
}

/// What a deck reported.
#[derive(Debug)]
pub enum StreamDeckInput {
    /// Nothing.
    NoData,
    /// The state of every key.
    ButtonStateChange(Vec<bool>),
    /// The state of every encoder: pressed or not.
    EncoderStateChange(Vec<bool>),
    /// The steps that every encoder was turned by.
    EncoderTwist(Vec<i8>),
    /// A short touch of the LCD strip, at x and y.
    TouchScreenPress(u16, u16),
    /// A long touch of the LCD strip, at x and y.
    TouchScreenLongPress(u16, u16),
    /// A swipe over the LCD strip, from one point to another.
    TouchScreenSwipe((u16, u16), (u16, u16)),
}

/// What a [`StreamDeckInput`] says.
pub enum StreamDeckInputView {
    NoData,
    ButtonStateChange(Seq<bool>),
    EncoderStateChange(Seq<bool>),
    EncoderTwist(Seq<i8>),
    TouchScreenPress(u16, u16),
    TouchScreenLongPress(u16, u16),
    TouchScreenSwipe((u16, u16), (u16, u16)),
}

impl View for StreamDeckInput {
    type V = StreamDeckInputView;

    open spec fn view(&self) -> StreamDeckInputView {
        match self {
            StreamDeckInput::NoData => StreamDeckInputView::NoData,
            StreamDeckInput::ButtonStateChange(s) => StreamDeckInputView::ButtonStateChange(s@),
            StreamDeckInput::EncoderStateChange(s) => StreamDeckInputView::EncoderStateChange(s@),
            StreamDeckInput::EncoderTwist(s) => StreamDeckInputView::EncoderTwist(s@),
            StreamDeckInput::TouchScreenPress(x, y) => StreamDeckInputView::TouchScreenPress(*x, *y),
            StreamDeckInput::TouchScreenLongPress(x, y) => StreamDeckInputView::TouchScreenLongPress(
                *x,
                *y,
            ),
            StreamDeckInput::TouchScreenSwipe(a, b) => StreamDeckInputView::TouchScreenSwipe(*a, *b),
        }
    }
}

impl Clone for StreamDeckInput {
    fn clone(&self) -> (r: Self)
        ensures
            r@ == self@,
    {
        match self {
            StreamDeckInput::NoData => StreamDeckInput::NoData,
            StreamDeckInput::ButtonStateChange(s) => StreamDeckInput::ButtonStateChange(s.clone()),
            StreamDeckInput::EncoderStateChange(s) => StreamDeckInput::EncoderStateChange(s.clone()),
            StreamDeckInput::EncoderTwist(s) => StreamDeckInput::EncoderTwist(s.clone()),
            StreamDeckInput::TouchScreenPress(x, y) => StreamDeckInput::TouchScreenPress(*x, *y),
            StreamDeckInput::TouchScreenLongPress(x, y) => StreamDeckInput::TouchScreenLongPress(
                *x,
                *y,
            ),
            StreamDeckInput::TouchScreenSwipe(a, b) => StreamDeckInput::TouchScreenSwipe(*a, *b),
        }
    }
}

impl StreamDeckInput {
    /// Whether nothing was reported.
    pub fn is_empty(&self) -> (r: bool)
        ensures
            r == (self is NoData),
    {
        match self {
            StreamDeckInput::NoData => true,
            _ => false,
        }
    }
}

/// A HID transport to one device.
///
/// The library says nothing of what a transport reads or answers; it relies
/// only on what the types give: a buffer keeps its length.
pub trait HidDevice {
    /// Reads an input report into `buf`, waiting `timeout` milliseconds at
    /// most.
    fn read_timeout(&self, buf: &mut [u8], timeout: i32) -> (r: Result<(), HidError>)
        ensures
            final(buf)@.len() == old(buf)@.len(),
    ;

    /// Reads an input report into `buf`.
    fn read(&self, buf: &mut [u8]) -> (r: Result<(), HidError>)
        ensures
            final(buf)@.len() == old(buf)@.len(),
    ;

    /// Writes an output report and returns the number of bytes written.
    fn write(&self, payload: &[u8]) -> (r: Result<usize, HidError>);

    /// Reads the feature report whose id is the first byte of `buf` into
    /// `buf`.
    fn get_feature_report(&self, buf: &mut [u8]) -> (r: Result<(), HidError>)
        ensures
            final(buf)@.len() == old(buf)@.len(),
    ;

    /// Writes a feature report.
    fn send_feature_report(&self, payload: &[u8]) -> (r: Result<(), HidError>);
}

/// What a caller holds after a transport operation that fills a buffer: the
/// buffer as the device left it where the device answered, and the failure
/// where it failed.
pub open spec fn filled(asked: Result<(), HidError>, left: Seq<u8>) -> Result<Seq<u8>, HidError> {
    match asked {
        Ok(_) => Ok(left),
        Err(e) => Err(e),
    }
}

/// The bytes of a result that holds a buffer.
pub open spec fn report_of(r: Result<Vec<u8>, HidError>) -> Result<Seq<u8>, HidError> {
    match r {
        Ok(v) => Ok(v@),
        Err(e) => Err(e),
    }
}

/// Asks `device` for the feature report `report_id` with `length` bytes of
/// data. The buffer that is handed to the device holds the id and then
/// `length` zeros. The result is the device's: the buffer as the device
/// left it, which has kept its length, or the device's failure.
pub fn get_feature_report<D: HidDevice>(device: &D, report_id: u8, length: usize) -> (r: Result<
    Vec<u8>,
    HidError,
>)
    requires
        length < usize::MAX,
    ensures
        exists|buf: &mut [u8], asked: Result<(), HidError>|
            {
                &&& buf@ == seq![report_id] + zeros(length as int)
                &&& #[trigger] call_ensures(D::get_feature_report, (device, buf), asked)
                &&& report_of(r) == filled(asked, final(buf)@)
            },
        r matches Ok(buf) ==> buf@.len() == length + 1,
{
    let mut buff: Vec<u8> = vec![0u8; length];
    assert(buff@ =~= zeros(length as int));
    buff.insert(0, report_id);
    assert(buff@ =~= seq![report_id] + zeros(length as int));
    let slice = buff.as_mut_slice();
    let ghost left = final(slice)@;
    let done = device.get_feature_report(slice);
    assert(left == buff@);
    match done {
        Ok(_) => Ok(buff),
        Err(e) => Err(e),
    }
}

/// Sends a feature report to `device`. The device is handed `payload` as it
/// is, and the result is the device's.
pub fn send_feature_report<D: HidDevice>(device: &D, payload: &[u8]) -> (r: Result<(), HidError>)
    ensures
        call_ensures(D::send_feature_report, (device, payload), r),
{
    device.send_feature_report(payload)
}

/// Reads an input report of `length` bytes from `device`: waiting `timeout`
/// milliseconds at most where a timeout is given, until a report comes
/// otherwise. The device is handed a buffer of `length` zeros. The result
/// is the device's: the buffer as the device left it, which has kept its
/// length, or the device's failure.
pub fn read_data<D: HidDevice>(device: &D, length: usize, timeout: Option<i32>) -> (r: Result<
    Vec<u8>,
    HidError,
>)
    ensures
        timeout is Some ==> exists|buf: &mut [u8], asked: Result<(), HidError>|
            {
                &&& buf@ == zeros(length as int)
                &&& #[trigger] call_ensures(D::read_timeout, (device, buf, timeout->0), asked)
                &&& report_of(r) == filled(asked, final(buf)@)
            },
        timeout is None ==> exists|buf: &mut [u8], asked: Result<(), HidError>|
            {
                &&& buf@ == zeros(length as int)
                &&& #[trigger] call_ensures(D::read, (device, buf), asked)
                &&& report_of(r) == filled(asked, final(buf)@)
            },
        r matches Ok(buf) ==> buf@.len() == length,
{
    let mut buf: Vec<u8> = vec![0u8; length];
    assert(buf@ =~= zeros(length as int));
    let slice = buf.as_mut_slice();
    let ghost left = final(slice)@;
    let done = match timeout {
        Some(t) => device.read_timeout(slice, t),
        None => device.read(slice),
    };
    assert(left == buf@);
    match done {
        Ok(_) => Ok(buf),
        Err(e) => Err(e),
    }
}

/// Writes an output report to `device`. The device is handed `payload` as it
/// is, and the result is the device's.
pub fn write_data<D: HidDevice>(device: &D, payload: &[u8]) -> (r: Result<usize, HidError>)
    ensures
        call_ensures(D::write, (device, payload), r),
{
    device.write(payload)
}

/// The bytes of `b` that are not 0, in their order.
pub open spec fn without_nul(b: Seq<u8>) -> Seq<u8>
    decreases b.len(),
{
    if b.len() == 0 {
        Seq::empty()
    } else if b.last() == 0 {
        without_nul(b.drop_last())
    } else {
        without_nul(b.drop_last()).push(b.last())
    }
}

/// A report holds text that is not UTF-8.
#[derive(Debug)]
pub struct Utf8Error {}

impl From<Utf8Error> for StreamDeckError {
    fn from(e: Utf8Error) -> (r: Self) {
        StreamDeckError::Utf8Error
    }
}

impl FromSpecImpl<Utf8Error> for StreamDeckError {
    open spec fn obeys_from_spec() -> bool {
        true
    }

    open spec fn from_spec(e: Utf8Error) -> Self {
        StreamDeckError::Utf8Error
    }
}

/// The text of a report field: the bytes read as UTF-8, with every NUL
/// character taken out. Fails where the bytes are not UTF-8.
pub fn extract_str(bytes: &[u8]) -> (r: Result<String, Utf8Error>)
    ensures
        match r {
            Ok(s) => valid_utf8(bytes@) && encode_utf8(s@) == without_nul(bytes@),
            Err(_) => !valid_utf8(bytes@),
        },
{
    let text = match string_from_utf8(slice_to_vec(bytes)) {
        Some(t) => t,
        None => {
            return Err(Utf8Error {  });
        },
    };
    let s = text.as_str();
    let b = s.as_bytes();
    proof {
        decode_utf8_encode_utf8(bytes@);
        lemma_str_ends(s);
    }
    let mut out = String::new();
    let mut run_start: usize = 0;
    let mut i: usize = 0;
    while i < b.len()
        invariant
            run_start <= i <= b@.len(),
            b@ == bytes@,
            b@ == s.spec_bytes(),
            valid_utf8(b@),
            is_char_boundary(b@, run_start as int),
            encode_utf8(out@) + b@.subrange(run_start as int, i as int) == without_nul(
                b@.subrange(0, i as int),
            ),
        decreases b@.len() - i,
    {
        proof {
            assert(b@.subrange(0, i + 1).drop_last() =~= b@.subrange(0, i as int));
            assert(b@.subrange(run_start as int, i + 1) =~= b@.subrange(
                run_start as int,
                i as int,
            ).push(b@[i as int]));
        }
        if b[i] == 0 {
            proof {
                lemma_ascii_is_boundary(b@, i as int);
                lemma_boundary_after_ascii(b@, i as int);
            }
            let piece = slice(s, run_start, i);
            proof {
                lemma_encode_concat(out@, piece@);
            }
            out.append(piece);
            run_start = i + 1;
            assert(b@.subrange(run_start as int, run_start as int) =~= Seq::<u8>::empty());
            assert(encode_utf8(out@) + Seq::<u8>::empty() =~= encode_utf8(out@));
        } else {
            assert(encode_utf8(out@) + b@.subrange(run_start as int, i as int).push(b@[i as int])
                =~= (encode_utf8(out@) + b@.subrange(run_start as int, i as int)).push(
                b@[i as int],
            ));
        }
        i += 1;
    }
    let piece = slice(s, run_start, i);
    proof {
        lemma_encode_concat(out@, piece@);
        assert(b@.subrange(0, i as int) =~= b@);
    }
    out.append(piece);
    Ok(out)
}

/// The index of a key in the report of the first deck, whose rows run the
/// other way: the key at the same place counted from the other end of its
/// row.
pub open spec fn flipped(kind: Kind, key: int) -> int {
    let col = key % (kind.column_count() as int);
    (key - col) + ((kind.column_count() - 1) - col)
}

/// Flips a key index within its row.
pub fn flip_key_index(kind: &Kind, key: u8) -> (r: u8)
    requires
        flipped(*kind, key as int) <= 255,
    ensures
        r == flipped(*kind, key as int),
{
    let columns = kind.column_count();
    let col = key % columns;
    (key - col) + ((columns - 1) - col)
}

/// Whether `b` is not 0.
pub open spec fn is_set(b: u8) -> bool {
    b != 0
}

/// Whether a report of key states is long enough for its kind.
pub open spec fn key_report_fits(kind: Kind, states: Seq<u8>) -> bool {
    &&& states.len() >= 1
    &&& states[0] != 0 ==> match kind {
        Kind::Original => states.len() > kind.key_count(),
        Kind::Mini | Kind::MiniMk2 => true,
        _ => states.len() >= 4,
    }
}

/// The key states that a report holds: none where its first byte is 0;
/// otherwise one per key, from the byte behind the header on, for the first
/// deck with every row flipped.
pub open spec fn button_states(kind: Kind, states: Seq<u8>) -> Seq<bool> {
    if states[0] == 0 {
        Seq::empty()
    } else {
        match kind {
            Kind::Original => Seq::new(
                kind.key_count() as nat,
                |i: int| is_set(states[flipped(kind, i) + 1]),
            ),
            Kind::Mini | Kind::MiniMk2 => Seq::new(
                (states.len() - 1) as nat,
                |i: int| is_set(states[i + 1]),
            ),
            _ => Seq::new((states.len() - 4) as nat, |i: int| is_set(states[i + 4])),
        }
    }
}

fn flags_from(data: &[u8], from: usize, to: usize) -> (r: Vec<bool>)
    requires
        from <= to <= data@.len(),
    ensures
        r@ == Seq::new((to - from) as nat, |i: int| is_set(data@[i + from])),
{
    let mut out: Vec<bool> = Vec::new();
    let mut i: usize = from;
    while i < to
        invariant
            from <= i <= to <= data@.len(),
            out@.len() == i - from,
            forall|k: int| 0 <= k < i - from ==> #[trigger] out@[k] == is_set(data@[k + from]),
        decreases to - i,
    {
        out.push(data[i] != 0);
        i += 1;
    }
    assert(out@ =~= Seq::new((to - from) as nat, |i: int| is_set(data@[i + from])));
    out
}

/// Reads the key states out of an input report.
pub fn read_button_states(kind: &Kind, states: &[u8]) -> (r: Vec<bool>)
    requires
        key_report_fits(*kind, states@),
    ensures
        r@ == button_states(*kind, states@),
{
    if states[0] == 0 {
        return Vec::new();
    }
    match kind {
        Kind::Original => {
            let mut bools: Vec<bool> = Vec::new();
            let mut i: u8 = 0;
            while i < kind.key_count()
                invariant
                    *kind == Kind::Original,
                    i <= kind.key_count(),
                    states@.len() > kind.key_count(),
                    bools@.len() == i,
                    forall|k: int|
                        0 <= k < i ==> #[trigger] bools@[k] == is_set(
                            states@[flipped(*kind, k) + 1],
                        ),
                decreases kind.key_count() - i,
            {
                let flipped_i = flip_key_index(kind, i) as usize;
                bools.push(states[flipped_i + 1] != 0);
                i += 1;
            }
            assert(bools@ =~= button_states(*kind, states@));
            bools
        },
        Kind::Mini | Kind::MiniMk2 => flags_from(states, 1, states.len()),
        _ => flags_from(states, 4, states.len()),
    }
}

/// The number that two bytes write, least significant first.
pub open spec fn le16(lo: u8, hi: u8) -> u16 {
    (lo + hi * 0x100) as u16
}

fn read_le16(lo: u8, hi: u8) -> (r: u16)
    ensures
        r == le16(lo, hi),
{
    (lo as u16) + (hi as u16) * 0x100
}

/// What a report of the LCD strip says: a short or a long touch at a point,
/// or a swipe from one point to another. An error for every other kind of
/// touch, and for a report that is too short for what it announces.
pub open spec fn lcd_input(data: Seq<u8>) -> Option<StreamDeckInputView> {
    if data.len() < 10 {
        None
    } else if data[4] == 1 {
        Some(StreamDeckInputView::TouchScreenPress(le16(data[6], data[7]), le16(data[8], data[9])))
    } else if data[4] == 2 {
        Some(
            StreamDeckInputView::TouchScreenLongPress(le16(data[6], data[7]), le16(data[8], data[9])),
        )
    } else if data[4] == 3 && data.len() >= 14 {
        Some(
            StreamDeckInputView::TouchScreenSwipe(
                (le16(data[6], data[7]), le16(data[8], data[9])),
                (le16(data[10], data[11]), le16(data[12], data[13])),
            ),
        )
    } else {
        None
    }
}

/// Reads a report of the LCD strip.
pub fn read_lcd_input(data: &[u8]) -> (r: Result<StreamDeckInput, StreamDeckError>)
    ensures
        match lcd_input(data@) {
            Some(v) => r matches Ok(input) && input@ == v,
            None => r matches Err(StreamDeckError::BadData),
        },
{
    if data.len() < 10 {
        return Err(StreamDeckError::BadData);
    }
    let start_x = read_le16(data[6], data[7]);
    let start_y = read_le16(data[8], data[9]);
    if data[4] == 1 {
        Ok(StreamDeckInput::TouchScreenPress(start_x, start_y))
    } else if data[4] == 2 {
        Ok(StreamDeckInput::TouchScreenLongPress(start_x, start_y))
    } else if data[4] == 3 && data.len() >= 14 {
        let end_x = read_le16(data[10], data[11]);
        let end_y = read_le16(data[12], data[13]);
        Ok(StreamDeckInput::TouchScreenSwipe((start_x, start_y), (end_x, end_y)))
    } else {
        Err(StreamDeckError::BadData)
    }
}

/// A byte read as a signed number in two's complement.
pub open spec fn signed(b: u8) -> i8 {
    if b >= 0x80 {
        (b - 0x100) as i8
    } else {
        b as i8
    }
}

/// What a report of the encoders says: for each encoder whether it is
/// pressed, or by how many steps it was turned. An error for every other
/// kind of report, and for a report that is too short for the encoders of the
/// kind.
pub open spec fn encoder_input(kind: Kind, data: Seq<u8>) -> Option<StreamDeckInputView> {
    let n = kind.encoder_count() as nat;
    if data.len() < 5 + n {
        None
    } else if data[4] == 0 {
        Some(StreamDeckInputView::EncoderStateChange(Seq::new(n, |i: int| is_set(data[i + 5]))))
    } else if data[4] == 1 {
        Some(StreamDeckInputView::EncoderTwist(Seq::new(n, |i: int| signed(data[i + 5]))))
    } else {
        None
    }
}

/// Reads a report of the encoders.
pub fn read_encoder_input(kind: &Kind, data: &[u8]) -> (r: Result<StreamDeckInput, StreamDeckError>)
    ensures
        match encoder_input(*kind, data@) {
            Some(v) => r matches Ok(input) && input@ == v,
            None => r matches Err(StreamDeckError::BadData),
        },
{
    let n = kind.encoder_count() as usize;
    if data.len() < 5 + n {
        return Err(StreamDeckError::BadData);
    }
    if data[4] == 0 {
        Ok(StreamDeckInput::EncoderStateChange(flags_from(data, 5, 5 + n)))
    } else if data[4] == 1 {
        let mut out: Vec<i8> = Vec::new();
        let mut i: usize = 0;
        while i < n
            invariant
                i <= n <= 255,
                5 + n <= data@.len(),
                out@.len() == i,
                forall|k: int| 0 <= k < i ==> #[trigger] out@[k] == signed(data@[k + 5]),
            decreases n - i,
        {
            let b = data[5 + i];
            out.push(if b >= 0x80 { (b as i16 - 0x100) as i8 } else { b as i8 });
            i += 1;
        }
        assert(out@ =~= Seq::new(n as nat, |i: int| signed(data@[i + 5])));
        Ok(StreamDeckInput::EncoderTwist(out))
    } else {
        Err(StreamDeckError::BadData)
    }
}

/// `n` zero bytes.
pub open spec fn zeros(n: int) -> Seq<u8> {
    Seq::new(n as nat, |i: int| 0u8)
}

fn push_zeros(out: &mut Vec<u8>, n: usize)
    ensures
        final(out)@ == old(out)@ + zeros(n as int),
{
    let mut i: usize = 0;
    while i < n
        invariant
            i <= n,
            out@ == old(out)@ + zeros(i as int),
        decreases n - i,
    {
        out.push(0);
        assert(out@ =~= old(out)@ + zeros(i + 1));
        i += 1;
    }
}

/// Whether the kind is of the first generation, with its longer headers.
pub open spec fn is_first_generation(kind: Kind) -> bool {
    kind is Original || kind is Mini || kind is MiniMk2
}

fn first_generation(kind: &Kind) -> (r: bool)
    ensures
        r == is_first_generation(*kind),
{
    match kind {
        Kind::Original | Kind::Mini | Kind::MiniMk2 => true,
        _ => false,
    }
}

/// The feature report that resets a deck.
pub open spec fn reset_report_spec(kind: Kind) -> Seq<u8> {
    if is_first_generation(kind) {
        seq![0x0Bu8, 0x63u8] + zeros(15)
    } else {
        seq![0x03u8, 0x02u8] + zeros(30)
    }
}

/// Builds the feature report that resets a deck.
pub fn reset_report(kind: &Kind) -> (r: Vec<u8>)
    ensures
        r@ == reset_report_spec(*kind),
{
    let mut buf: Vec<u8> = Vec::new();
    if first_generation(kind) {
        buf.push(0x0B);
        buf.push(0x63);
        push_zeros(&mut buf, 15);
    } else {
        buf.push(0x03);
        buf.push(0x02);
        push_zeros(&mut buf, 30);
    }
    assert(buf@ =~= reset_report_spec(*kind));
    buf
}

/// The feature report that sets the brightness of a deck, in percent; more
/// than 100 counts as 100.
pub open spec fn brightness_report_spec(kind: Kind, percent: u8) -> Seq<u8> {
    let p = if percent > 100 {
        100u8
    } else {
        percent
    };
    if is_first_generation(kind) {
        seq![0x05u8, 0x55u8, 0xaau8, 0xd1u8, 0x01u8, p] + zeros(11)
    } else {
        seq![0x03u8, 0x08u8, p] + zeros(29)
    }
}

/// Builds the feature report that sets the brightness of a deck.
pub fn brightness_report(kind: &Kind, percent: u8) -> (r: Vec<u8>)
    ensures
        r@ == brightness_report_spec(*kind, percent),
{
    let p: u8 = if percent > 100 {
        100
    } else {
        percent
    };
    let mut buf: Vec<u8> = Vec::new();
    if first_generation(kind) {
        buf.push(0x05);
        buf.push(0x55);
        buf.push(0xaa);
        buf.push(0xd1);
        buf.push(0x01);
        buf.push(p);
        push_zeros(&mut buf, 11);
    } else {
        buf.push(0x03);
        buf.push(0x08);
        buf.push(p);
        push_zeros(&mut buf, 29);
    }
    assert(buf@ =~= brightness_report_spec(*kind, percent));
    buf
}

/// Length of an input report of the kind.
pub open spec fn input_report_length(kind: Kind) -> int {
    match kind {
        Kind::Plus => 14,
        Kind::Original | Kind::Mini | Kind::MiniMk2 => 1 + kind.key_count(),
        _ => 4 + kind.key_count(),
    }
}

/// What an input report says.
///
/// A report that starts with 0 says nothing. A deck with encoders tells in
/// its second byte whether the report is of its keys, its LCD strip or its
/// encoders; every other deck reports its keys. An error for a report that
/// is too short, and for one of an unknown sort.
pub open spec fn input_of(kind: Kind, data: Seq<u8>) -> Option<StreamDeckInputView> {
    if data.len() < 2 || !key_report_fits(kind, data) {
        None
    } else if data[0] == 0 {
        Some(StreamDeckInputView::NoData)
    } else if kind is Plus {
        if data[1] == 0 {
            Some(StreamDeckInputView::ButtonStateChange(button_states(kind, data)))
        } else if data[1] == 2 {
            lcd_input(data)
        } else if data[1] == 3 {
            encoder_input(kind, data)
        } else {
            None
        }
    } else {
        Some(StreamDeckInputView::ButtonStateChange(button_states(kind, data)))
    }
}

/// Reads an input report.
pub fn parse_input(kind: &Kind, data: &[u8]) -> (r: Result<StreamDeckInput, StreamDeckError>)
    ensures
        match input_of(*kind, data@) {
            Some(v) => r matches Ok(input) && input@ == v,
            None => r matches Err(StreamDeckError::BadData),
        },
{
    if data.len() < 2 {
        return Err(StreamDeckError::BadData);
    }
    if data[0] == 0 {
        return Ok(StreamDeckInput::NoData);
    }
    let fits = match kind {
        Kind::Original => data.len() > kind.key_count() as usize,
        Kind::Mini | Kind::MiniMk2 => true,
        _ => data.len() >= 4,
    };
    if !fits {
        return Err(StreamDeckError::BadData);
    }
    match kind {
        Kind::Plus => {
            if data[1] == 0 {
                Ok(StreamDeckInput::ButtonStateChange(read_button_states(kind, data)))
            } else if data[1] == 2 {
                read_lcd_input(data)
            } else if data[1] == 3 {
                read_encoder_input(kind, data)
            } else {
                Err(StreamDeckError::BadData)
            }
        },
        _ => Ok(StreamDeckInput::ButtonStateChange(read_button_states(kind, data))),
    }
}

/// Length of an output report that carries a piece of an image.
pub open spec fn image_report_length(kind: Kind) -> int {
    if kind is Original {
        8191
    } else {
        1024
    }
}

/// Length of the header of such a report.
pub open spec fn image_header_length(kind: Kind) -> int {
    if is_first_generation(kind) {
        16
    } else {
        8
    }
}

/// Number of image bytes that one report carries: for the first deck half the
/// image, for every other what the header leaves free.
pub open spec fn image_payload_length(kind: Kind, image_len: int) -> int {
    if kind is Original {
        image_len / 2
    } else {
        image_report_length(kind) - image_header_length(kind)
    }
}

/// Whether an image of this length can be cut into reports for the kind: a
/// report carries at least one byte, and no more than it has room for.
pub open spec fn image_fits(kind: Kind, image_len: int) -> bool {
    image_len == 0 || (1 <= image_payload_length(kind, image_len) <= image_report_length(kind)
        - image_header_length(kind))
}

/// Number of reports that an image takes.
pub open spec fn image_page_count(kind: Kind, image_len: int) -> int {
    let per_page = image_payload_length(kind, image_len);
    if image_len == 0 {
        0
    } else {
        (image_len + per_page - 1) / per_page
    }
}

/// Number of image bytes in report `page`.
pub open spec fn image_page_size(kind: Kind, image_len: int, page: int) -> int {
    let per_page = image_payload_length(kind, image_len);
    if image_len - page * per_page < per_page {
        image_len - page * per_page
    } else {
        per_page
    }
}

/// The header of report `page` of an image for `key`, carrying `size` bytes,
/// `last` where it is the last report of the image.
pub open spec fn image_header(kind: Kind, key: u8, page: int, size: int, last: bool) -> Seq<u8> {
    let done: u8 = if last {
        1
    } else {
        0
    };
    match kind {
        Kind::Original => seq![
            0x02u8,
            0x01u8,
            ((page + 1) % 0x100) as u8,
            0u8,
            done,
            (key + 1) as u8,
        ] + zeros(10),
        Kind::Mini | Kind::MiniMk2 => seq![
            0x02u8,
            0x01u8,
            (page % 0x100) as u8,
            0u8,
            done,
            (key + 1) as u8,
        ] + zeros(10),
        _ => seq![
            0x02u8,
            0x07u8,
            key,
            done,
            (size % 0x100) as u8,
            ((size / 0x100) % 0x100) as u8,
            (page % 0x100) as u8,
            ((page / 0x100) % 0x100) as u8,
        ],
    }
}

/// Report `page` of the image `data` for `key`: the header, the piece of the
/// image, and zeros up to the length of a report.
pub open spec fn image_report(kind: Kind, key: u8, data: Seq<u8>, page: int) -> Seq<u8> {
    let per_page = image_payload_length(kind, data.len() as int);
    let size = image_page_size(kind, data.len() as int, page);
    image_header(kind, key, page, size, page * per_page + size == data.len()) + data.subrange(
        page * per_page,
        page * per_page + size,
    ) + zeros(image_report_length(kind) - image_header_length(kind) - size)
}

/// The key as the device numbers it: flipped within its row on the first
/// deck, as it is on every other.
pub open spec fn device_key(kind: Kind, key: u8) -> u8 {
    if kind is Original {
        flipped(kind, key as int) as u8
    } else {
        key
    }
}

/// The reports that put an image on a key.
pub open spec fn image_reports_spec(kind: Kind, key: u8, data: Seq<u8>) -> Result<
    Seq<Seq<u8>>,
    StreamDeckError,
> {
    if key >= kind.key_count() {
        Err(StreamDeckError::InvalidKeyIndex)
    } else if !kind.is_visual() {
        Err(StreamDeckError::NoScreen)
    } else if !image_fits(kind, data.len() as int) {
        Err(StreamDeckError::UnsupportedOperation)
    } else {
        Ok(
            Seq::new(
                image_page_count(kind, data.len() as int) as nat,
                |page: int| image_report(kind, device_key(kind, key), data, page),
            ),
        )
    }
}

fn image_header_bytes(kind: &Kind, key: u8, page: usize, size: usize, last: bool) -> (r: Vec<u8>)
    requires
        key < 255,
        page < usize::MAX,
    ensures
        r@ == image_header(*kind, key, page as int, size as int, last),
{
    let done: u8 = if last {
        1
    } else {
        0
    };
    let mut buf: Vec<u8> = Vec::new();
    buf.push(0x02);
    match kind {
        Kind::Original => {
            buf.push(0x01);
            buf.push(((page + 1) % 0x100) as u8);
            buf.push(0);
            buf.push(done);
            buf.push(key + 1);
            push_zeros(&mut buf, 10);
        },
        Kind::Mini | Kind::MiniMk2 => {
            buf.push(0x01);
            buf.push((page % 0x100) as u8);
            buf.push(0);
            buf.push(done);
            buf.push(key + 1);
            push_zeros(&mut buf, 10);
        },
        _ => {
            buf.push(0x07);
            buf.push(key);
            buf.push(done);
            buf.push((size % 0x100) as u8);
            buf.push(((size / 0x100) % 0x100) as u8);
            buf.push((page % 0x100) as u8);
            buf.push(((page / 0x100) % 0x100) as u8);
        },
    }
    assert(buf@ =~= image_header(*kind, key, page as int, size as int, last));
    buf
}

/// Cuts an image into the reports that put it on a key.
///
/// Fails for a key that the deck does not have, for a deck without displays,
/// and for an image that the reports of the deck cannot carry.
pub fn image_reports(kind: &Kind, key: u8, image_data: &[u8]) -> (r: Result<
    Vec<Vec<u8>>,
    StreamDeckError,
>)
    ensures
        match image_reports_spec(*kind, key, image_data@) {
            Ok(reports) => r matches Ok(v) && v@.len() == reports.len() && forall|page: int|
                0 <= page < reports.len() ==> (#[trigger] v@[page])@ == reports[page],
            Err(e) => r matches Err(err) && err == e,
        },
{
    if key >= kind.key_count() {
        return Err(StreamDeckError::InvalidKeyIndex);
    }
    let key = match kind {
        Kind::Original => flip_key_index(kind, key),
        _ => key,
    };
    if !kind.is_visual() {
        return Err(StreamDeckError::NoScreen);
    }
    let report_length: usize = match kind {
        Kind::Original => 8191,
        _ => 1024,
    };
    let header_length: usize = if first_generation(kind) {
        16
    } else {
        8
    };
    let total = image_data.len();
    let per_page: usize = match kind {
        Kind::Original => total / 2,
        _ => report_length - header_length,
    };
    if total != 0 && (per_page < 1 || per_page > report_length - header_length) {
        return Err(StreamDeckError::UnsupportedOperation);
    }
    let mut out: Vec<Vec<u8>> = Vec::new();
    let mut page: usize = 0;
    let mut sent: usize = 0;
    proof {
        if total != 0 {
            assert((total + per_page - 1) / (per_page as int) >= 1) by (nonlinear_arith)
                requires
                    total >= 1,
                    per_page >= 1,
            ;
        }
    }
    while sent < total
        invariant
            total == image_data@.len(),
            total != 0 ==> 1 <= per_page <= report_length - header_length,
            per_page == image_payload_length(*kind, total as int),
            report_length == image_report_length(*kind),
            header_length == image_header_length(*kind),
            sent <= total,
            sent < total ==> sent == page * per_page,
            key < 255,
            out@.len() == page,
            page <= image_page_count(*kind, total as int),
            sent == total ==> page == image_page_count(*kind, total as int),
            forall|p: int|
                0 <= p < page ==> (#[trigger] out@[p])@ == image_report(*kind, key, image_data@, p),
        decreases total - sent,
    {
        assert(page <= page * per_page) by (nonlinear_arith)
            requires
                per_page >= 1,
                page >= 0,
        ;
        let remaining = total - sent;
        let size = if remaining < per_page {
            remaining
        } else {
            per_page
        };
        assert(size == image_page_size(*kind, total as int, page as int));
        let mut buf = image_header_bytes(kind, key, page, size, size == remaining);
        buf.extend_from_slice(slice_subrange(image_data, sent, sent + size));
        push_zeros(&mut buf, report_length - header_length - size);
        assert(buf@ =~= image_report(*kind, key, image_data@, page as int));
        out.push(buf);
        proof {
            let count = image_page_count(*kind, total as int);
            let pp = per_page as int;
            let t = total as int;
            let pg = page as int;
            assert((pg + 1) * pp == pg * pp + pp) by (nonlinear_arith);
            if sent + size == total {
                assert((t + pp - 1) / pp == pg + 1) by (nonlinear_arith)
                    requires
                        pp >= 1,
                        pg * pp < t,
                        t <= pg * pp + pp,
                ;
            } else {
                assert((t + pp - 1) / pp >= pg + 2) by (nonlinear_arith)
                    requires
                        pp >= 1,
                        pg * pp + pp < t,
                ;
            }
        }
        sent = sent + size;
        page = page + 1;
    }
    assert(total == 0 ==> page == 0);
    Ok(out)
}

/// Where the serial number of a kind is found: the id of the feature report,
/// the length of its data, and the offset of the text in what comes back.
pub open spec fn serial_request(kind: Kind) -> (u8, int, int) {
    match kind {
        Kind::Original | Kind::Mini => (0x03u8, 17, 5),
        Kind::MiniMk2 => (0x03u8, 32, 5),
        _ => (0x06u8, 32, 2),
    }
}

/// Where the firmware version of a kind is found: the id of the feature
/// report, the length of its data, and the offset of the text in what comes
/// back.
pub open spec fn firmware_request(kind: Kind) -> (u8, int, int) {
    match kind {
        Kind::Original | Kind::Mini | Kind::MiniMk2 => (0x04u8, 17, 5),
        _ => (0x05u8, 32, 6),
    }
}

/// The text that a deck operation reads out of a feature report: the bytes
/// of the report from offset `skip` on, read as UTF-8 and with the NUL
/// characters taken out. The transport's failure where it failed, and an
/// error where the bytes are not UTF-8.
pub open spec fn text_of_report(asked: Result<(), HidError>, report: Seq<u8>, skip: int) -> Result<
    Seq<u8>,
    StreamDeckError,
> {
    match asked {
        Err(e) => Err(StreamDeckError::HidError(e)),
        Ok(_) => if valid_utf8(report.subrange(skip, report.len() as int)) {
            Ok(without_nul(report.subrange(skip, report.len() as int)))
        } else {
            Err(StreamDeckError::Utf8Error)
        },
    }
}

/// The bytes of a result that holds a text.
pub open spec fn text_bytes(r: Result<String, StreamDeckError>) -> Result<Seq<u8>, StreamDeckError> {
    match r {
        Ok(s) => Ok(encode_utf8(s@)),
        Err(e) => Err(e),
    }
}

/// That `device`, sent the feature report `payload`, may answer `outcome`.
pub open spec fn feature_report_sent<D: HidDevice>(
    device: &D,
    payload: Seq<u8>,
    outcome: Result<(), HidError>,
) -> bool {
    exists|p: &[u8]|
        p@ == payload && #[trigger] call_ensures(D::send_feature_report, (device, p), outcome)
}

/// The result of a deck operation that sends one feature report, from the
/// transport's answer.
pub open spec fn sent_result(outcome: Result<(), HidError>) -> Result<(), StreamDeckError> {
    match outcome {
        Ok(_) => Ok(()),
        Err(e) => Err(StreamDeckError::HidError(e)),
    }
}

/// What reading an input report gives, from the transport's answer: the
/// transport's failure where it failed, and otherwise what the report that it
/// left in the buffer says, [`input_of`].
pub open spec fn input_read(
    kind: Kind,
    asked: Result<(), HidError>,
    data: Seq<u8>,
    r: Result<StreamDeckInput, StreamDeckError>,
) -> bool {
    match asked {
        Err(e) => r matches Err(StreamDeckError::HidError(h)) && h == e,
        Ok(_) => match input_of(kind, data) {
            Some(v) => r matches Ok(input) && input@ == v,
            None => r matches Err(StreamDeckError::BadData),
        },
    }
}

/// That `device`, handed the output report `payload`, may accept it.
pub open spec fn report_accepted<D: HidDevice>(device: &D, payload: Seq<u8>) -> bool {
    exists|p: &[u8], n: usize|
        p@ == payload && #[trigger] call_ensures(D::write, (device, p), Ok::<usize, HidError>(n))
}

/// That `device`, handed the output report `payload`, may refuse it with `e`.
pub open spec fn report_refused<D: HidDevice>(device: &D, payload: Seq<u8>, e: HidError) -> bool {
    exists|p: &[u8]|
        p@ == payload && #[trigger] call_ensures(D::write, (device, p), Err::<usize, HidError>(e))
}

/// That `device` was handed the first `n` of `reports` and accepted each,
/// and that this gave `r`: success where these are all the reports, and
/// otherwise the failure with which the device refused the report that comes
/// next.
pub open spec fn written_up_to<D: HidDevice>(
    device: &D,
    reports: Seq<Seq<u8>>,
    n: int,
    r: Result<(), StreamDeckError>,
) -> bool {
    &&& 0 <= n <= reports.len()
    &&& forall|i: int| 0 <= i < n ==> report_accepted(device, #[trigger] reports[i])
    &&& if n == reports.len() {
        r is Ok
    } else {
        r matches Err(StreamDeckError::HidError(e)) && report_refused(device, reports[n], e)
    }
}

/// How writing an image to a key of a deck of kind `kind` behind `device`
/// ends.
///
/// Where the image has no reports, nothing is written and the error is the
/// one that [`image_reports_spec`] gives. Otherwise the reports are handed to
/// the device one after the other, up to the first that the device refuses;
/// the result is that refusal, or success where the device accepts them
/// all.
pub open spec fn image_written<D: HidDevice>(
    device: &D,
    kind: Kind,
    key: u8,
    data: Seq<u8>,
    r: Result<(), StreamDeckError>,
) -> bool {
    match image_reports_spec(kind, key, data) {
        Err(e) => r matches Err(err) && err == e,
        Ok(reports) => exists|n: int| #[trigger] written_up_to(device, reports, n, r),
    }
}

/// A deck of a known kind behind a HID transport.
pub struct StreamDeck<DEV: HidDevice> {
    kind: Kind,
    device: DEV,
}

impl<DEV: HidDevice> StreamDeck<DEV> {
    /// The kind of the deck.
    pub closed spec fn spec_kind(&self) -> Kind {
        self.kind
    }

    /// The transport that the deck is reached through.
    pub closed spec fn spec_device(&self) -> DEV {
        self.device
    }

    /// A deck of the given kind behind `device`.
    pub fn new(device: DEV, kind: Kind) -> (r: Self)
        ensures
            r.spec_kind() == kind,
    {
        StreamDeck { kind, device }
    }

    /// The kind of the deck.
    #[verifier::when_used_as_spec(spec_kind)]
    pub fn kind(&self) -> (r: Kind)
        ensures
            r == self.spec_kind(),
    {
        self.kind
    }

    fn report_text(&self, request: (u8, usize, usize)) -> (r: Result<String, StreamDeckError>)
        requires
            request.2 <= request.1 < 1000,
        ensures
            exists|buf: &mut [u8], asked: Result<(), HidError>|
                {
                    &&& buf@ == seq![request.0] + zeros(request.1 as int)
                    &&& #[trigger] call_ensures(
                        DEV::get_feature_report,
                        (&self.spec_device(), buf),
                        asked,
                    )
                    &&& text_bytes(r) == text_of_report(asked, final(buf)@, request.2 as int)
                },
    {
        let got = get_feature_report(&self.device, request.0, request.1);
        assert(self.spec_device() == self.device);
        let bytes = match got {
            Ok(b) => b,
            Err(e) => {
                return Err(StreamDeckError::HidError(e));
            },
        };
        match extract_str(slice_subrange(bytes.as_slice(), request.2, bytes.len())) {
            Ok(s) => Ok(s),
            Err(_) => Err(StreamDeckError::Utf8Error),
        }
    }

    /// Asks the deck for its serial number. The transport is asked for the
    /// feature report that [`serial_request`] names, with a buffer that holds
    /// the report's id and then zeros, and the result is
    /// [`text_of_report`] of what the transport answers.
    pub fn serial_number(&self) -> (r: Result<String, StreamDeckError>)
        ensures
            exists|buf: &mut [u8], asked: Result<(), HidError>|
                {
                    &&& buf@ == seq![serial_request(self.kind()).0] + zeros(
                        serial_request(self.kind()).1,
                    )
                    &&& #[trigger] call_ensures(
                        DEV::get_feature_report,
                        (&self.spec_device(), buf),
                        asked,
                    )
                    &&& text_bytes(r) == text_of_report(
                        asked,
                        final(buf)@,
                        serial_request(self.kind()).2,
                    )
                },
    {
        match self.kind {
            Kind::Original | Kind::Mini => self.report_text((0x03, 17, 5)),
            Kind::MiniMk2 => self.report_text((0x03, 32, 5)),
            _ => self.report_text((0x06, 32, 2)),
        }
    }

    /// Asks the deck for its firmware version. The transport is asked for
    /// the feature report that [`firmware_request`] names, with a buffer that
    /// holds the report's id and then zeros, and the result is
    /// [`text_of_report`] of what the transport answers.
    pub fn firmware_version(&self) -> (r: Result<String, StreamDeckError>)
        ensures
            exists|buf: &mut [u8], asked: Result<(), HidError>|
                {
                    &&& buf@ == seq![firmware_request(self.kind()).0] + zeros(
                        firmware_request(self.kind()).1,
                    )
                    &&& #[trigger] call_ensures(
                        DEV::get_feature_report,
                        (&self.spec_device(), buf),
                        asked,
                    )
                    &&& text_bytes(r) == text_of_report(
                        asked,
                        final(buf)@,
                        firmware_request(self.kind()).2,
                    )
                },
    {
        match self.kind {
            Kind::Original | Kind::Mini | Kind::MiniMk2 => self.report_text((0x04, 17, 5)),
            _ => self.report_text((0x05, 32, 6)),
        }
    }

    /// Reads one input report from the deck and says what it holds. The
    /// transport is handed a buffer of zeros of the length that the kind's
    /// reports have, to read into with the timeout or without one, and the
    /// result is [`input_read`] of what the transport answers.
    pub fn read_input_poll(&self, timeout: Option<i32>) -> (r: Result<
        StreamDeckInput,
        StreamDeckError,
    >)
        ensures
            timeout is Some ==> exists|buf: &mut [u8], asked: Result<(), HidError>|
                {
                    &&& buf@ == zeros(input_report_length(self.kind()))
                    &&& #[trigger] call_ensures(
                        DEV::read_timeout,
                        (&self.spec_device(), buf, timeout->0),
                        asked,
                    )
                    &&& input_read(self.kind(), asked, final(buf)@, r)
                },
            timeout is None ==> exists|buf: &mut [u8], asked: Result<(), HidError>|
                {
                    &&& buf@ == zeros(input_report_length(self.kind()))
                    &&& #[trigger] call_ensures(DEV::read, (&self.spec_device(), buf), asked)
                    &&& input_read(self.kind(), asked, final(buf)@, r)
                },
    {
        let length: usize = match self.kind {
            Kind::Plus => 14,
            Kind::Original | Kind::Mini | Kind::MiniMk2 => 1 + self.kind.key_count() as usize,
            _ => 4 + self.kind.key_count() as usize,
        };
        let read = read_data(&self.device, length, timeout);
        assert(self.spec_device() == self.device);
        let data = match read {
            Ok(d) => d,
            Err(e) => {
                return Err(StreamDeckError::HidError(e));
            },
        };
        parse_input(&self.kind, data.as_slice())
    }

    /// Resets the deck: the transport is sent [`reset_report_spec`] as a
    /// feature report, and the result is the transport's answer.
    pub fn reset(&self) -> (r: Result<(), StreamDeckError>)
        ensures
            exists|outcome: Result<(), HidError>|
                #[trigger] feature_report_sent(
                    &self.spec_device(),
                    reset_report_spec(self.kind()),
                    outcome,
                ) && r == sent_result(outcome),
    {
        let buf = reset_report(&self.kind);
        let payload = buf.as_slice();
        let outcome = send_feature_report(&self.device, payload);
        assert(feature_report_sent(&self.spec_device(), reset_report_spec(self.kind()), outcome));
        match outcome {
            Ok(_) => Ok(()),
            Err(e) => Err(StreamDeckError::HidError(e)),
        }
    }

    /// Sets the brightness of the deck, in percent: the transport is sent
    /// [`brightness_report_spec`] as a feature report, and the result is the
    /// transport's answer.
    pub fn set_brightness(&self, percent: u8) -> (r: Result<(), StreamDeckError>)
        ensures
            exists|outcome: Result<(), HidError>|
                #[trigger] feature_report_sent(
                    &self.spec_device(),
                    brightness_report_spec(self.kind(), percent),
                    outcome,
                ) && r == sent_result(outcome),
    {
        let buf = brightness_report(&self.kind, percent);
        let payload = buf.as_slice();
        let outcome = send_feature_report(&self.device, payload);
        assert(feature_report_sent(&self.spec_device(), brightness_report_spec(self.kind(), percent), outcome));
        match outcome {
            Ok(_) => Ok(()),
            Err(e) => Err(StreamDeckError::HidError(e)),
        }
    }

    /// Puts an image on a key: writes the reports of [`image_reports_spec`]
    /// to the transport, one after the other, and stops at the first that the
    /// transport refuses: [`image_written`].
    pub fn write_image(&self, key: u8, image_data: &[u8]) -> (r: Result<(), StreamDeckError>)
        ensures
            image_written(&self.spec_device(), self.kind(), key, image_data@, r),
    {
        let reports = match image_reports(&self.kind, key, image_data) {
            Ok(r) => r,
            Err(e) => {
                return Err(e);
            },
        };
        let ghost cut = image_reports_spec(self.kind(), key, image_data@)->Ok_0;
        let mut page: usize = 0;
        while page < reports.len()
            invariant
                page <= reports@.len(),
                image_reports_spec(self.kind(), key, image_data@) == Ok::<
                    Seq<Seq<u8>>,
                    StreamDeckError,
                >(cut),
                cut.len() == reports@.len(),
                forall|i: int| 0 <= i < cut.len() ==> (#[trigger] reports@[i])@ == cut[i],
                forall|i: int| 0 <= i < page ==> report_accepted(&self.spec_device(), #[trigger] cut[i]),
            decreases reports@.len() - page,
        {
            let payload = reports[page].as_slice();
            match write_data(&self.device, payload) {
                Ok(n) => {
                    assert(report_accepted(&self.spec_device(), cut[page as int]));
                },
                Err(e) => {
                    let r = Err(StreamDeckError::HidError(e));
                    assert(report_refused(&self.spec_device(), cut[page as int], e));
                    assert(written_up_to(&self.spec_device(), cut, page as int, r));
                    assert(image_reports_spec(self.kind(), key, image_data@)->Ok_0 == cut);
                    return r;
                },
            }
            page += 1;
        }
        assert(written_up_to(&self.spec_device(), cut, cut.len() as int, Ok::<(), StreamDeckError>(())));
        Ok(())
    }
}

} // verus!
