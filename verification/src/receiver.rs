//! Routing of the controller's commands to device actions: which button or
//! LCD region a bitmap is for, what has to be done to it, and a cache of what
//! was done before.
//!
//! Converting pixels to a device's own encoding is not done here. Where an
//! image has to be converted the processor hands out a [`TranscodeJob`]; the
//! caller converts and hands the result to [`DefaultCommandProcessor::finish`].

use vstd::prelude::*;
use vstd::string::*;
use vstd::utf8::*;
use crate::bitmap::{base64_decoded, decode_base64, resize_rgb, rgb_len, rgb_size};
use crate::cache::{cache_capacity, cache_entries, cache_get, cache_new, cache_put, lru_get, lru_put, lru_touch, lru_wf, lemma_put_keeps_others, lemma_put_then_get,
    lemma_touch_keeps_all};
use crate::companion::{parse_line, Command, CommandView};
use crate::keyvalue::ParseError;
use crate::leaf_comm::{DeviceActions, DeviceActionsView, SetBrightness, SetButtonImage,
    SetLCDImage};

verus! {

/// The shape of a device, as far as routing depends on it.
#[derive(Debug, Clone, Copy, PartialEq, Eq)]
pub struct DeviceShape {
    /// Number of buttons with a display.
    pub key_count: u8,
    /// Number of buttons in a row.
    pub columns: u8,
    /// Number of rotary encoders.
    pub encoder_count: u8,
    /// Width and height of the LCD strip in pixels, where there is one.
    pub lcd_strip: Option<(u16, u16)>,
    /// Width of a button's image in pixels.
    pub image_width: u16,
    /// Height of a button's image in pixels.
    pub image_height: u16,
}

/// The width of an image of `width` by `height` pixels once it is scaled to
/// the height `to_height` with its proportions kept: the exact width rounded
/// to the nearest pixel, and 1 at least.
pub open spec fn scaled_width(width: int, height: int, to_height: int) -> int {
    let exact = (2 * width * to_height + height) / (2 * height);
    if exact < 1 {
        1
    } else {
        exact
    }
}

impl DeviceShape {
    /// A shape whose LCD strip, where it has one, can show a key's image:
    /// neither the strip nor the image is empty, and the image, scaled to the
    /// height of the strip, is no wider than the strip.
    pub open spec fn wf(&self) -> bool {
        match self.lcd_strip {
            Some((w, h)) => {
                &&& w >= 1
                &&& h >= 1
                &&& self.image_width >= 1
                &&& self.image_height >= 1
                &&& scaled_width(self.image_width as int, self.image_height as int, h as int) <= w
            },
            None => true,
        }
    }

    /// Whether the shape is well-formed.
    pub fn is_valid(&self) -> (r: bool)
        ensures
            r == self.wf(),
    {
        match self.lcd_strip {
            Some((w, h)) => w >= 1 && h >= 1 && self.image_width >= 1 && self.image_height >= 1
                && scale_width(self.image_width, self.image_height, h) <= w as u64,
            None => true,
        }
    }
}

/// Computes [`scaled_width`].
pub fn scale_width(width: u16, height: u16, to_height: u16) -> (r: u64)
    requires
        height >= 1,
    ensures
        r == scaled_width(width as int, height as int, to_height as int),
{
    assert(0 <= width * to_height <= 0xffff * 0xffff) by (nonlinear_arith)
        requires
            0 <= width <= 0xffff,
            0 <= to_height <= 0xffff,
    ;
    let product: u64 = (width as u64) * (to_height as u64);
    assert(2 * width * to_height == 2 * product) by (nonlinear_arith)
        requires
            product == width * to_height,
    ;
    let exact: u64 = (2 * product + height as u64) / (2 * (height as u64));
    if exact < 1 {
        1
    } else {
        exact
    }
}

/// Where a bitmap goes.
#[derive(Debug, Clone, Copy, PartialEq, Eq, Structural)]
pub enum Target {
    /// The button with this index.
    Button(u8),
    /// The region of the LCD strip at this virtual column.
    Lcd(u8),
}

/// Why a bitmap was refused.
#[derive(Debug, Clone, Copy, PartialEq, Eq, Structural)]
pub enum RouteError {
    /// The bitmap text is not base64.
    BadBase64,
    /// The bitmap does not hold width x height x 3 bytes.
    BadLength { expected: u64, actual: u64 },
}

/// The target of key index `key` on a device of shape `shape`.
///
/// An index below the key count is that button. Otherwise, on a device with
/// an LCD strip, the virtual column is the key count minus the index, and the
/// target is that region where the column lies within the columns. Every
/// other index has no target.
pub open spec fn route_spec(shape: DeviceShape, key: u8) -> Option<Target> {
    let column = shape.key_count as int - key as int;
    if key < shape.key_count {
        Some(Target::Button(key))
    } else if shape.lcd_strip is Some && 0 <= column < shape.columns {
        Some(Target::Lcd(column as u8))
    } else {
        None
    }
}

/// Finds the target of a key index.
pub fn route(shape: &DeviceShape, key: u8) -> (r: Option<Target>)
    ensures
        r == route_spec(*shape, key),
{
    if key < shape.key_count {
        Some(Target::Button(key))
    } else if shape.lcd_strip.is_some() && key == shape.key_count && shape.columns > 0 {
        Some(Target::Lcd(0))
    } else {
        None
    }
}

/// Horizontal offset of the image for a virtual column of the LCD strip.
///
/// The columns share the width that the image leaves free, in equal steps;
/// the offset is one step less than the column's share and never leaves the
/// strip: it is at least 0 and at most what the image leaves free.
pub open spec fn lcd_x_offset_spec(column: int, columns: int, strip_width: int, image_width: int) -> int {
    let free = if strip_width >= image_width {
        strip_width - image_width
    } else {
        0
    };
    let step = if columns >= 2 {
        free / (columns - 1)
    } else {
        0
    };
    let raw = (column - 1) * step;
    if raw < 0 {
        0
    } else if raw > free {
        free
    } else {
        raw
    }
}

/// Computes [`lcd_x_offset_spec`].
pub fn lcd_x_offset(column: u8, columns: u8, strip_width: u16, image_width: u16) -> (r: u16)
    ensures
        r == lcd_x_offset_spec(column as int, columns as int, strip_width as int, image_width as int),
{
    let free: u32 = if strip_width >= image_width {
        (strip_width - image_width) as u32
    } else {
        0
    };
    let step: u32 = if columns >= 2 {
        free / ((columns - 1) as u32)
    } else {
        0
    };
    if column == 0 {
        assert((column - 1) * step <= 0) by (nonlinear_arith)
            requires
                column == 0,
                step >= 0,
        ;
        return 0;
    }
    assert(0 <= (column - 1) * step <= 255 * 0xffff) by (nonlinear_arith)
        requires
            1 <= column <= 255,
            0 <= step <= 0xffff,
    ;
    let raw: u32 = ((column - 1) as u32) * step;
    if raw > free {
        free as u16
    } else {
        raw as u16
    }
}

/// The bitmap of a key image, once its text was decoded: the decoded bytes
/// where they are exactly the pixels of one image of the shape's size.
pub open spec fn checked_bitmap(shape: DeviceShape, decoded: Option<Seq<u8>>) -> Result<
    Seq<u8>,
    RouteError,
> {
    match decoded {
        None => Err(RouteError::BadBase64),
        Some(bytes) => if bytes.len() == rgb_len(
            shape.image_width as int,
            shape.image_height as int,
        ) {
            Ok(bytes)
        } else {
            Err(
                RouteError::BadLength {
                    expected: rgb_len(shape.image_width as int, shape.image_height as int) as u64,
                    actual: bytes.len() as u64,
                },
            )
        },
    }
}

/// The bytes of an optional buffer.
pub open spec fn bytes_of(decoded: Option<Vec<u8>>) -> Option<Seq<u8>> {
    match decoded {
        Some(v) => Some(v@),
        None => None,
    }
}

/// Checks a decoded bitmap against the size of a key image.
pub fn check_bitmap(shape: &DeviceShape, decoded: Option<Vec<u8>>) -> (r: Result<
    Vec<u8>,
    RouteError,
>)
    ensures
        match checked_bitmap(*shape, bytes_of(decoded)) {
            Ok(bytes) => r matches Ok(v) && v@ == bytes,
            Err(e) => r matches Err(err) && err == e,
        },
{
    match decoded {
        None => Err(RouteError::BadBase64),
        Some(bytes) => {
            let expected = rgb_size(shape.image_width, shape.image_height);
            let actual = bytes.len() as u64;
            if actual == expected {
                Ok(bytes)
            } else {
                Err(RouteError::BadLength { expected, actual })
            }
        },
    }
}

/// An image that waits for its conversion to the device's encoding.
#[derive(Debug, Clone)]
pub struct TranscodeJob {
    /// Where the image goes.
    pub target: Target,
    /// The bitmap text that the image was decoded from.
    pub bitmap_base64: String,
    /// Horizontal offset on the LCD strip; 0 for a button.
    pub x_offset: u16,
    /// Width of the image in pixels.
    pub width: u16,
    /// Height of the image in pixels.
    pub height: u16,
    /// The pixels, three bytes each, row by row.
    pub pixels: Vec<u8>,
}

/// What the processor made of a command.
#[derive(Debug, Clone)]
pub enum Routed {
    /// Nothing is to be done.
    Ignored,
    /// The device is to be told this.
    Action(DeviceActions),
    /// This image is to be converted, and the result handed to
    /// [`DefaultCommandProcessor::finish`].
    Transcode(TranscodeJob),
}

/// The key under which the image for a target and a bitmap text is cached:
/// the kind of target, its index, and the text.
pub open spec fn cache_key(target: Target, text: Seq<char>) -> (u8, u8, Seq<char>) {
    match target {
        Target::Button(k) => (0u8, k, text),
        Target::Lcd(c) => (1u8, c, text),
    }
}

/// The action that shows a converted image at its target.
pub open spec fn action_of(target: Target, image: (u16, u16, u16, Seq<u8>)) -> DeviceActionsView {
    match target {
        Target::Button(k) => DeviceActionsView::SetButtonImage { button: k, image: image.3 },
        Target::Lcd(_) => DeviceActionsView::SetLCDImage {
            x_offset: image.0,
            x_size: image.1,
            y_size: image.2,
            image: image.3,
        },
    }
}

fn make_key(target: Target, text: &str) -> (r: (u8, u8, String))
    ensures
        r@ == cache_key(target, text@),
{
    match target {
        Target::Button(k) => (0u8, k, text.to_owned()),
        Target::Lcd(c) => (1u8, c, text.to_owned()),
    }
}

fn make_action(target: Target, image: (u16, u16, u16, Vec<u8>)) -> (r: DeviceActions)
    ensures
        r@ == action_of(target, image@),
{
    match target {
        Target::Button(k) => DeviceActions::SetButtonImage(
            SetButtonImage { button: k, image: image.3 },
        ),
        Target::Lcd(_) => DeviceActions::SetLCDImage(
            SetLCDImage { x_offset: image.0, x_size: image.1, y_size: image.2, image: image.3 },
        ),
    }
}

/// The job for an image of the LCD strip, once the image was scaled: the
/// scaled image, with its size, at the offset of its column.
pub fn lcd_job(
    column: u8,
    columns: u8,
    strip_width: u16,
    text: String,
    width: u16,
    height: u16,
    pixels: Vec<u8>,
) -> (r: TranscodeJob)
    ensures
        r.target == Target::Lcd(column),
        r.bitmap_base64@ == text@,
        r.width == width,
        r.height == height,
        r.pixels@ == pixels@,
        r.x_offset == lcd_x_offset_spec(
            column as int,
            columns as int,
            strip_width as int,
            width as int,
        ),
{
    TranscodeJob {
        target: Target::Lcd(column),
        bitmap_base64: text,
        x_offset: lcd_x_offset(column, columns, strip_width, width),
        width,
        height,
        pixels,
    }
}

/// Turns the controller's commands into device actions, and remembers the
/// images it has seen.
pub struct DefaultCommandProcessor {
    shape: DeviceShape,
    cache: lru::LruCache<(u8, u8, String), (u16, u16, u16, Vec<u8>)>,
}

impl DefaultCommandProcessor {
    /// The shape of the device that the processor routes for.
    pub closed spec fn shape(&self) -> DeviceShape {
        self.shape
    }

    /// The cached images, the most recently used first, each under its
    /// [`cache_key`] and with offset, width, height and bytes.
    pub closed spec fn entries(&self) -> Seq<((u8, u8, Seq<char>), (u16, u16, u16, Seq<u8>))> {
        cache_entries(self.cache)
    }

    /// The number of images that the cache holds at most.
    pub closed spec fn capacity(&self) -> nat {
        cache_capacity(self.cache)
    }

    /// What holds of every processor: its shape is well-formed, and its cache
    /// holds no key twice and no more entries than its capacity.
    pub open spec fn wf(&self) -> bool {
        &&& self.shape().wf()
        &&& lru_wf(self.entries(), self.capacity())
    }

    /// A processor for a device of the given shape, with room for 200 images.
    /// `None` where the shape is not well-formed.
    pub fn new(shape: DeviceShape) -> (r: Option<Self>)
        ensures
            match r {
                Some(p) => shape.wf() && p.wf() && p.shape() == shape && p.capacity() == 200
                    && p.entries().len() == 0,
                None => !shape.wf(),
            },
    {
        Self::with_capacity(shape, 200)
    }

    /// A processor for a device of the given shape, with room for `capacity`
    /// images. `None` where the shape is not well-formed or the capacity is 0.
    pub fn with_capacity(shape: DeviceShape, capacity: usize) -> (r: Option<Self>)
        ensures
            match r {
                Some(p) => shape.wf() && capacity > 0 && p.wf() && p.shape() == shape
                    && p.capacity() == capacity && p.entries().len() == 0,
                None => !shape.wf() || capacity == 0,
            },
    {
        if !shape.is_valid() || capacity == 0 {
            return None;
        }
        Some(DefaultCommandProcessor { shape, cache: cache_new(capacity) })
    }

    /// The job for a bitmap that the cache does not hold, from what its text
    /// decoded to.
    fn plan(&self, target: Target, text: String, decoded: Option<Vec<u8>>) -> (r: Result<
        TranscodeJob,
        RouteError,
    >)
        requires
            self.shape().wf(),
            target is Lcd ==> self.shape().lcd_strip is Some,
        ensures
            match checked_bitmap(self.shape(), bytes_of(decoded)) {
                Err(e) => r matches Err(err) && err == e,
                Ok(bytes) => r matches Ok(job) && planned(self.shape(), target, text@, bytes, job),
            },
    {
        let bytes = match check_bitmap(&self.shape, decoded) {
            Ok(b) => b,
            Err(e) => {
                return Err(e);
            },
        };
        match target {
            Target::Button(_) => Ok(
                TranscodeJob {
                    target,
                    bitmap_base64: text,
                    x_offset: 0,
                    width: self.shape.image_width,
                    height: self.shape.image_height,
                    pixels: bytes,
                },
            ),
            Target::Lcd(column) => {
                let (strip_width, strip_height) = match self.shape.lcd_strip {
                    Some(s) => s,
                    None => (1, 1),
                };
                let width = scale_width(
                    self.shape.image_width,
                    self.shape.image_height,
                    strip_height,
                ) as u16;
                let pixels = resize_rgb(
                    self.shape.image_width,
                    self.shape.image_height,
                    bytes,
                    width,
                    strip_height,
                );
                Ok(lcd_job(column, self.shape.columns, strip_width, text, width, strip_height, pixels))
            },
        }
    }

    /// Handles one command of the controller: [`processed`].
    pub fn process(&mut self, command: Command<'_>) -> (r: Result<Routed, RouteError>)
        requires
            old(self).wf(),
        ensures
            final(self).wf(),
            final(self).shape() == old(self).shape(),
            final(self).capacity() == old(self).capacity(),
            processed(
                old(self).shape(),
                old(self).capacity(),
                old(self).entries(),
                command@,
                r,
                final(self).entries(),
            ),
    {
        match command {
            Command::Brightness(b) => Ok(
                Routed::Action(DeviceActions::SetBrightness(SetBrightness { brightness: b.brightness })),
            ),
            Command::KeyState(ks) => {
                let target = match route(&self.shape, ks.key) {
                    Some(t) => t,
                    None => {
                        return Ok(Routed::Ignored);
                    },
                };
                let text = ks.bitmap_base64.as_str();
                let key = make_key(target, text);
                let ghost before = self.entries();
                proof {
                    lemma_touch_keeps_all(before, self.capacity(), key@, key@);
                    encode_utf8_decode_utf8(ks.bitmap_base64@);
                }
                match cache_get(&mut self.cache, &key) {
                    Some(image) => Ok(Routed::Action(make_action(target, image))),
                    None => {
                        let decoded = decode_base64(text);
                        match self.plan(target, key.2, decoded) {
                            Ok(job) => Ok(Routed::Transcode(job)),
                            Err(e) => Err(e),
                        }
                    },
                }
            },
            _ => Ok(Routed::Ignored),
        }
    }

    /// Takes the converted image of a job: stores it in the cache under the
    /// job's target and text, in front, and returns the action that shows it.
    pub fn finish(&mut self, job: TranscodeJob, native: Vec<u8>) -> (r: DeviceActions)
        requires
            old(self).wf(),
        ensures
            final(self).wf(),
            final(self).shape() == old(self).shape(),
            final(self).capacity() == old(self).capacity(),
            final(self).entries() == lru_put(
                old(self).entries(),
                old(self).capacity(),
                cache_key(job.target, job.bitmap_base64@),
                (job.x_offset, job.width, job.height, native@),
            ),
            r@ == action_of(job.target, (job.x_offset, job.width, job.height, native@)),
    {
        let key = make_key(job.target, job.bitmap_base64.as_str());
        let stored = native.clone();
        proof {
            lemma_put_then_get(
                self.entries(),
                self.capacity(),
                key@,
                (job.x_offset, job.width, job.height, native@),
            );
        }
        cache_put(&mut self.cache, key, (job.x_offset, job.width, job.height, stored));
        make_action(job.target, (job.x_offset, job.width, job.height, native))
    }
}

/// What the processor makes of a command: the result `r`, and the cache
/// `after` the command from the cache `before` it.
///
/// A brightness becomes an action. A bitmap is routed by its key index;
/// without a target it is dropped. With one, a cached image for that target
/// and text is handed out again, as it was stored, and moves to the front of
/// the cache. Otherwise the cache stays as it is, the text is decoded and
/// checked, and the pixels come back as a job. Every other command is
/// ignored.
pub open spec fn processed(
    shape: DeviceShape,
    capacity: nat,
    before: Seq<((u8, u8, Seq<char>), (u16, u16, u16, Seq<u8>))>,
    command: CommandView,
    r: Result<Routed, RouteError>,
    after: Seq<((u8, u8, Seq<char>), (u16, u16, u16, Seq<u8>))>,
) -> bool {
    match command {
        CommandView::Brightness { device, brightness } => {
            &&& after == before
            &&& r matches Ok(Routed::Action(a)) && a@ == (DeviceActionsView::SetBrightness {
                brightness,
            })
        },
        CommandView::KeyState { device, key, button_type, bitmap_base64, pressed } => match route_spec(
            shape,
            key,
        ) {
            None => {
                &&& after == before
                &&& r matches Ok(Routed::Ignored)
            },
            Some(target) => match lru_get(before, cache_key(target, decode_utf8(bitmap_base64))) {
                Some(image) => {
                    &&& after == lru_touch(before, cache_key(target, decode_utf8(bitmap_base64)))
                    &&& r matches Ok(Routed::Action(a)) && a@ == action_of(target, image)
                },
                None => {
                    &&& after == before
                    &&& match checked_bitmap(shape, base64_decoded(bitmap_base64)) {
                        Err(e) => r matches Err(err) && err == e,
                        Ok(bytes) => r matches Ok(Routed::Transcode(job)) && planned(
                            shape,
                            target,
                            decode_utf8(bitmap_base64),
                            bytes,
                            job,
                        ),
                    }
                },
            },
        },
        _ => {
            &&& after == before
            &&& r matches Ok(Routed::Ignored)
        },
    }
}

/// Why a line gave no action.
#[derive(Debug, Clone, Copy, PartialEq, Eq)]
pub enum ReceiveError {
    /// The line is no command.
    Parse(ParseError),
    /// The bitmap of the command was refused.
    Route(RouteError),
}

impl DefaultCommandProcessor {
    /// Handles one line of the controller: reads it, and handles the
    /// command that it holds. A line that is no command leaves the processor
    /// as it is.
    pub fn handle_line(&mut self, line: &str) -> (r: Result<Routed, ReceiveError>)
        requires
            old(self).wf(),
        ensures
            final(self).wf(),
            final(self).shape() == old(self).shape(),
            final(self).capacity() == old(self).capacity(),
            match parse_line(line.spec_bytes()) {
                Err(e) => {
                    &&& final(self).entries() == old(self).entries()
                    &&& r matches Err(ReceiveError::Parse(err)) && err == e
                },
                Ok(command) => match r {
                    Ok(routed) => processed(
                        old(self).shape(),
                        old(self).capacity(),
                        old(self).entries(),
                        command,
                        Ok(routed),
                        final(self).entries(),
                    ),
                    Err(ReceiveError::Route(e)) => processed(
                        old(self).shape(),
                        old(self).capacity(),
                        old(self).entries(),
                        command,
                        Err(e),
                        final(self).entries(),
                    ),
                    Err(ReceiveError::Parse(_)) => false,
                },
            },
    {
        let command = match Command::parse(line) {
            Ok(c) => c,
            Err(e) => {
                return Err(ReceiveError::Parse(e));
            },
        };
        match self.process(command) {
            Ok(routed) => Ok(routed),
            Err(e) => Err(ReceiveError::Route(e)),
        }
    }
}

/// What a job for `target` holds when the bitmap `bytes` was accepted.
///
/// For a button: the bitmap as it is, at the size of a key image. For the LCD
/// strip: an image of the height of the strip and of the width that keeps
/// the proportions of the key image, at the offset that its column and its
/// width give.
pub open spec fn planned(
    shape: DeviceShape,
    target: Target,
    text: Seq<char>,
    bytes: Seq<u8>,
    job: TranscodeJob,
) -> bool {
    &&& job.target == target
    &&& job.bitmap_base64@ == text
    &&& job.pixels@.len() == rgb_len(job.width as int, job.height as int)
    &&& match target {
        Target::Button(_) => {
            &&& job.pixels@ == bytes
            &&& job.width == shape.image_width
            &&& job.height == shape.image_height
            &&& job.x_offset == 0
        },
        Target::Lcd(column) => shape.lcd_strip matches Some((strip_width, strip_height)) && {
            &&& job.height == strip_height
            &&& job.width == scaled_width(
                shape.image_width as int,
                shape.image_height as int,
                strip_height as int,
            )
            &&& job.x_offset == lcd_x_offset_spec(
                column as int,
                shape.columns as int,
                strip_width as int,
                job.width as int,
            )
        },
    }
}

/// Cache determinism: once the image for a key and a bitmap text has been
/// stored, a bitmap with the same key and the same text gives that image
/// again, bit for bit, and nothing is decoded or converted for it.
pub proof fn lemma_same_bitmap_same_image(
    shape: DeviceShape,
    capacity: nat,
    entries: Seq<((u8, u8, Seq<char>), (u16, u16, u16, Seq<u8>))>,
    target: Target,
    image: (u16, u16, u16, Seq<u8>),
    command: CommandView,
    r: Result<Routed, RouteError>,
    after: Seq<((u8, u8, Seq<char>), (u16, u16, u16, Seq<u8>))>,
)
    requires
        lru_wf(entries, capacity),
        command matches CommandView::KeyState { key, bitmap_base64, .. } && route_spec(shape, key)
            == Some(target) && processed(
            shape,
            capacity,
            lru_put(entries, capacity, cache_key(target, decode_utf8(bitmap_base64)), image),
            command,
            r,
            after,
        ),
    ensures
        r matches Ok(Routed::Action(a)) && a@ == action_of(target, image),
{
    let text = decode_utf8(command->KeyState_bitmap_base64);
    lemma_put_then_get(entries, capacity, cache_key(target, text), image);
}

/// An image that was cached for a target and a bitmap text is what a lookup
/// for that target and text gives, bit for bit; and a lookup for another
/// target never gives it, the same text or not: what another target resolves
/// to is what it resolved to before the image was stored, or nothing.
pub proof fn lemma_cache_keyed_by_target(
    entries: Seq<((u8, u8, Seq<char>), (u16, u16, u16, Seq<u8>))>,
    capacity: nat,
    target: Target,
    other: Target,
    text: Seq<char>,
    other_text: Seq<char>,
    image: (u16, u16, u16, Seq<u8>),
)
    requires
        lru_wf(entries, capacity),
    ensures
        lru_get(
            lru_put(entries, capacity, cache_key(target, text), image),
            cache_key(target, text),
        ) == Some(image),
        other != target ==> (lru_get(
            lru_put(entries, capacity, cache_key(target, text), image),
            cache_key(other, other_text),
        ) matches Some(found) ==> lru_get(entries, cache_key(other, other_text)) == Some(found)),
{
    lemma_put_then_get(entries, capacity, cache_key(target, text), image);
    if other != target {
        lemma_put_keeps_others(
            entries,
            capacity,
            cache_key(target, text),
            image,
            cache_key(other, other_text),
        );
    }
}

} // verus!
