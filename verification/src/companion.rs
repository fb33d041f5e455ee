//! The text protocol of the controller application: one command per line, a
//! command word followed by `KEY=value` fields.

use vstd::prelude::*;
use vstd::string::*;
use vstd::utf8::*;
use crate::bitmap::{base64_decoded, decode_base64};
use crate::common::StringOrStr;
use crate::keyvalue::{all_names, distinct_names, fields_map, fields_text, has_backslash, is_space,
    lemma_fields_in_any_order, lemma_fields_text_parses, lemma_run_block, parse_fields, run_end,
    str_to_key_value, Class, ParseError, ParseMap};
use crate::text::{decimal, lemma_str_ends, parse_u8_spec, push_decimal, slice, str_eq};

verus! {

/// The versions that the controller announces in `BEGIN`.
#[derive(Debug, PartialEq, Eq)]
pub struct Versions<'a> {
    pub companion_version: StringOrStr<'a>,
    pub api_version: StringOrStr<'a>,
}

/// The controller's answer to the registration of a device.
#[derive(Debug, PartialEq, Eq)]
pub struct AddDevice<'a> {
    pub success: bool,
    pub device_id: StringOrStr<'a>,
}

/// A bitmap for one key, as the controller sends it.
#[derive(Debug, PartialEq, Eq)]
pub struct KeyState<'a> {
    pub device: StringOrStr<'a>,
    pub key: u8,
    pub button_type: StringOrStr<'a>,
    pub bitmap_base64: StringOrStr<'a>,
    pub pressed: bool,
}

/// The bitmap text of a key is not base64.
#[derive(Debug, Clone, Copy, PartialEq, Eq, Structural)]
pub struct BitmapError {}

impl<'a> KeyState<'a> {
    /// The pixels of the bitmap: what its text decodes to as standard base64
    /// without padding. Fails where the text is no such encoding.
    pub fn bitmap(&self) -> (r: Result<Vec<u8>, BitmapError>)
        ensures
            match base64_decoded(self.bitmap_base64.bytes()) {
                Some(bytes) => r matches Ok(v) && v@ == bytes,
                None => r is Err,
            },
    {
        match decode_base64(self.bitmap_base64.as_str()) {
            Some(v) => Ok(v),
            None => Err(BitmapError {  }),
        }
    }
}

/// A brightness for the whole device.
#[derive(Debug, PartialEq, Eq)]
pub struct Brightness<'a> {
    pub device: StringOrStr<'a>,
    pub brightness: u8,
}

/// What a device tells the controller about itself when it registers.
#[derive(Debug, PartialEq, Eq)]
pub struct DeviceMsg {
    pub device_id: String,
    pub product_name: String,
    pub keys_total: u8,
    pub keys_per_row: u8,
    /// Width of the bitmaps that the device wants, in pixels.
    pub resolution: u16,
}

impl DeviceMsg {
    /// The fields of the registration, as they stand on the line.
    pub open spec fn text(&self) -> Seq<char> {
        "DEVICEID="@ + self.device_id@ + " PRODUCT_NAME=\""@ + self.product_name@
            + "\" KEYS_TOTAL="@ + decimal(self.keys_total as nat) + ", KEYS_PER_ROW="@ + decimal(
            self.keys_per_row as nat,
        ) + " BITMAPS="@ + decimal(self.resolution as nat) + " COLORS=0 TEXT=0"@
    }

    /// Writes the fields of the registration.
    pub fn device_msg(&self) -> (r: String)
        ensures
            r@ == self.text(),
    {
        let mut out = String::new();
        out.append("DEVICEID=");
        out.append(self.device_id.as_str());
        out.append(" PRODUCT_NAME=\"");
        out.append(self.product_name.as_str());
        out.append("\" KEYS_TOTAL=");
        push_decimal(&mut out, self.keys_total as u64);
        out.append(", KEYS_PER_ROW=");
        push_decimal(&mut out, self.keys_per_row as u64);
        out.append(" BITMAPS=");
        push_decimal(&mut out, self.resolution as u64);
        out.append(" COLORS=0 TEXT=0");
        assert(out@ =~= self.text());
        out
    }
}

/// One line of the text protocol.
#[derive(Debug, PartialEq, Eq)]
pub enum Command<'a> {
    Pong,
    /// `KEY-PRESS`, with the rest of the line as it stands.
    KeyPress(&'a str),
    /// `KEY-ROTATE`, with the rest of the line as it stands.
    KeyRotate(&'a str),
    Begin(Versions<'a>),
    AddDevice(AddDevice<'a>),
    KeyState(KeyState<'a>),
    Brightness(Brightness<'a>),
    /// A command word that this side does not know.
    Unknown(&'a str),
}

/// What a [`Command`] says, with every text as its bytes.
pub enum CommandView {
    Pong,
    KeyPress(Seq<u8>),
    KeyRotate(Seq<u8>),
    Begin { companion_version: Seq<u8>, api_version: Seq<u8> },
    AddDevice { success: bool, device_id: Seq<u8> },
    KeyState { device: Seq<u8>, key: u8, button_type: Seq<u8>, bitmap_base64: Seq<u8>, pressed: bool },
    Brightness { device: Seq<u8>, brightness: u8 },
    Unknown(Seq<u8>),
}

impl<'a> View for Command<'a> {
    type V = CommandView;

    open spec fn view(&self) -> CommandView {
        match self {
            Command::Pong => CommandView::Pong,
            Command::KeyPress(d) => CommandView::KeyPress(d.spec_bytes()),
            Command::KeyRotate(d) => CommandView::KeyRotate(d.spec_bytes()),
            Command::Begin(v) => CommandView::Begin {
                companion_version: v.companion_version.bytes(),
                api_version: v.api_version.bytes(),
            },
            Command::AddDevice(a) => CommandView::AddDevice {
                success: a.success,
                device_id: a.device_id.bytes(),
            },
            Command::KeyState(k) => CommandView::KeyState {
                device: k.device.bytes(),
                key: k.key,
                button_type: k.button_type.bytes(),
                bitmap_base64: k.bitmap_base64.bytes(),
                pressed: k.pressed,
            },
            Command::Brightness(b) => CommandView::Brightness {
                device: b.device.bytes(),
                brightness: b.brightness,
            },
            Command::Unknown(w) => CommandView::Unknown(w.spec_bytes()),
        }
    }
}

impl<'a> Command<'a> {
    /// Whether every text of the command is borrowed from the line.
    pub open spec fn all_borrowed(&self) -> bool {
        match self {
            Command::Begin(v) => v.companion_version.is_borrowed() && v.api_version.is_borrowed(),
            Command::AddDevice(a) => a.device_id.is_borrowed(),
            Command::KeyState(k) => k.device.is_borrowed() && k.button_type.is_borrowed()
                && k.bitmap_base64.is_borrowed(),
            Command::Brightness(b) => b.device.is_borrowed(),
            _ => true,
        }
    }
}

/// `BEGIN`: both versions, and nothing else.
pub open spec fn begin_of(m: Map<Seq<u8>, Seq<u8>>) -> Result<CommandView, ParseError> {
    let cv = "CompanionVersion".spec_bytes();
    let av = "ApiVersion".spec_bytes();
    if !m.contains_key(cv) {
        Err(ParseError::MissingField)
    } else if !m.remove(cv).contains_key(av) {
        Err(ParseError::MissingField)
    } else if m.remove(cv).remove(av) != Map::<Seq<u8>, Seq<u8>>::empty() {
        Err(ParseError::UnexpectedFields)
    } else {
        Ok(CommandView::Begin { companion_version: m[cv], api_version: m.remove(cv)[av] })
    }
}

/// `ADD-DEVICE`: the device id, and nothing else. The command succeeded where
/// the status token is `OK`.
pub open spec fn add_device_of(status: Seq<u8>, m: Map<Seq<u8>, Seq<u8>>) -> Result<
    CommandView,
    ParseError,
> {
    let id = "DEVICEID".spec_bytes();
    if !m.contains_key(id) {
        Err(ParseError::MissingField)
    } else if m.remove(id) != Map::<Seq<u8>, Seq<u8>>::empty() {
        Err(ParseError::UnexpectedFields)
    } else {
        Ok(CommandView::AddDevice { success: status == "OK".spec_bytes(), device_id: m[id] })
    }
}

/// `KEY-STATE`: device id, key number, type, bitmap and pressed flag, and
/// nothing else. The fields are taken in this order, and the first that fails
/// decides the error.
pub open spec fn key_state_of(m: Map<Seq<u8>, Seq<u8>>) -> Result<CommandView, ParseError> {
    let id = "DEVICEID".spec_bytes();
    let key = "KEY".spec_bytes();
    let ty = "TYPE".spec_bytes();
    let bitmap = "BITMAP".spec_bytes();
    let pressed = "PRESSED".spec_bytes();
    let m1 = m.remove(id);
    let m2 = m1.remove(key);
    let m3 = m2.remove(ty);
    let m4 = m3.remove(bitmap);
    let m5 = m4.remove(pressed);
    if !m.contains_key(id) {
        Err(ParseError::MissingField)
    } else if !m1.contains_key(key) {
        Err(ParseError::MissingField)
    } else if parse_u8_spec(m1[key]) is None {
        Err(ParseError::InvalidNumber)
    } else if !m2.contains_key(ty) {
        Err(ParseError::MissingField)
    } else if !m3.contains_key(bitmap) {
        Err(ParseError::MissingField)
    } else if !m4.contains_key(pressed) {
        Err(ParseError::MissingField)
    } else if m5 != Map::<Seq<u8>, Seq<u8>>::empty() {
        Err(ParseError::UnexpectedFields)
    } else {
        Ok(
            CommandView::KeyState {
                device: m[id],
                key: parse_u8_spec(m1[key])->0,
                button_type: m2[ty],
                bitmap_base64: m3[bitmap],
                pressed: m4[pressed] == "true".spec_bytes(),
            },
        )
    }
}

/// `BRIGHTNESS`: device id and value, and nothing else.
pub open spec fn brightness_of(m: Map<Seq<u8>, Seq<u8>>) -> Result<CommandView, ParseError> {
    let id = "DEVICEID".spec_bytes();
    let value = "VALUE".spec_bytes();
    let m1 = m.remove(id);
    if !m.contains_key(id) {
        Err(ParseError::MissingField)
    } else if !m1.contains_key(value) {
        Err(ParseError::MissingField)
    } else if parse_u8_spec(m1[value]) is None {
        Err(ParseError::InvalidNumber)
    } else if m1.remove(value) != Map::<Seq<u8>, Seq<u8>>::empty() {
        Err(ParseError::UnexpectedFields)
    } else {
        Ok(CommandView::Brightness { device: m[id], brightness: parse_u8_spec(m1[value])->0 })
    }
}

/// A command that carries fields, built from its word and its fields. A word
/// that is none of the known ones gives `Unknown`, whatever fields came with
/// it.
pub open spec fn command_of(word: Seq<u8>, status: Seq<u8>, m: Map<Seq<u8>, Seq<u8>>) -> Result<
    CommandView,
    ParseError,
> {
    if word == "BEGIN".spec_bytes() {
        begin_of(m)
    } else if word == "KEY-STATE".spec_bytes() {
        key_state_of(m)
    } else if word == "ADD-DEVICE".spec_bytes() {
        add_device_of(status, m)
    } else if word == "BRIGHTNESS".spec_bytes() {
        brightness_of(m)
    } else {
        Ok(CommandView::Unknown(word))
    }
}

/// What a line says.
///
/// The command word is the text up to the first whitespace; a line without one
/// is rejected. `PONG`, `KEY-PRESS` and `KEY-ROTATE` are recognised by their
/// word alone. `ADD-DEVICE` carries a status token between its word and its
/// fields. For every other word the rest of the line must be well-formed
/// fields.
pub open spec fn parse_line(line: Seq<u8>) -> Result<CommandView, ParseError> {
    let w = run_end(line, 0, Class::Word);
    let word = line.subrange(0, w);
    let rest = line.subrange(w, line.len() as int);
    if w == 0 {
        Err(ParseError::EmptyCommand)
    } else if word == "PONG".spec_bytes() {
        Ok(CommandView::Pong)
    } else if word == "KEY-PRESS".spec_bytes() {
        Ok(CommandView::KeyPress(rest))
    } else if word == "KEY-ROTATE".spec_bytes() {
        Ok(CommandView::KeyRotate(rest))
    } else if word == "ADD-DEVICE".spec_bytes() {
        let a = run_end(line, w, Class::Space);
        let b = run_end(line, a, Class::Word);
        if a == b {
            Err(ParseError::MissingStatus)
        } else {
            match parse_fields(line, b) {
                Ok(m) => command_of(word, line.subrange(a, b), m),
                Err(e) => Err(e),
            }
        }
    } else {
        match parse_fields(line, w) {
            Ok(m) => command_of(word, Seq::empty(), m),
            Err(e) => Err(e),
        }
    }
}

fn begin<'a>(map: ParseMap<'a>) -> (r: Result<Command<'a>, ParseError>)
    ensures
        match begin_of(map@) {
            Ok(v) => r matches Ok(c) && c@ == v && (map.all_borrowed() ==> c.all_borrowed()),
            Err(e) => r matches Err(err) && err == e,
        },
{
    let mut map = map;
    let companion_version = match map.get("CompanionVersion") {
        Ok(v) => v,
        Err(e) => {
            return Err(e);
        },
    };
    let api_version = match map.get("ApiVersion") {
        Ok(v) => v,
        Err(e) => {
            return Err(e);
        },
    };
    if !map.is_empty() {
        return Err(ParseError::UnexpectedFields);
    }
    Ok(Command::Begin(Versions { companion_version, api_version }))
}

fn add_device<'a>(status: &'a str, map: ParseMap<'a>) -> (r: Result<Command<'a>, ParseError>)
    ensures
        match add_device_of(status.spec_bytes(), map@) {
            Ok(v) => r matches Ok(c) && c@ == v && (map.all_borrowed() ==> c.all_borrowed()),
            Err(e) => r matches Err(err) && err == e,
        },
{
    let mut map = map;
    let device_id = match map.get("DEVICEID") {
        Ok(v) => v,
        Err(e) => {
            return Err(e);
        },
    };
    if !map.is_empty() {
        return Err(ParseError::UnexpectedFields);
    }
    Ok(Command::AddDevice(AddDevice { success: str_eq(status, "OK"), device_id }))
}

fn key_state<'a>(map: ParseMap<'a>) -> (r: Result<Command<'a>, ParseError>)
    ensures
        match key_state_of(map@) {
            Ok(v) => r matches Ok(c) && c@ == v && (map.all_borrowed() ==> c.all_borrowed()),
            Err(e) => r matches Err(err) && err == e,
        },
{
    let mut map = map;
    let device = match map.get("DEVICEID") {
        Ok(v) => v,
        Err(e) => {
            return Err(e);
        },
    };
    let key = match map.get("KEY") {
        Ok(v) => match v.parse() {
            Some(n) => n,
            None => {
                return Err(ParseError::InvalidNumber);
            },
        },
        Err(e) => {
            return Err(e);
        },
    };
    let button_type = match map.get("TYPE") {
        Ok(v) => v,
        Err(e) => {
            return Err(e);
        },
    };
    let bitmap_base64 = match map.get("BITMAP") {
        Ok(v) => v,
        Err(e) => {
            return Err(e);
        },
    };
    let pressed = match map.get("PRESSED") {
        Ok(v) => str_eq(v.as_str(), "true"),
        Err(e) => {
            return Err(e);
        },
    };
    if !map.is_empty() {
        return Err(ParseError::UnexpectedFields);
    }
    Ok(Command::KeyState(KeyState { device, key, button_type, bitmap_base64, pressed }))
}

fn brightness<'a>(map: ParseMap<'a>) -> (r: Result<Command<'a>, ParseError>)
    ensures
        match brightness_of(map@) {
            Ok(v) => r matches Ok(c) && c@ == v && (map.all_borrowed() ==> c.all_borrowed()),
            Err(e) => r matches Err(err) && err == e,
        },
{
    let mut map = map;
    let device = match map.get("DEVICEID") {
        Ok(v) => v,
        Err(e) => {
            return Err(e);
        },
    };
    let brightness = match map.get("VALUE") {
        Ok(v) => match v.parse() {
            Some(n) => n,
            None => {
                return Err(ParseError::InvalidNumber);
            },
        },
        Err(e) => {
            return Err(e);
        },
    };
    if !map.is_empty() {
        return Err(ParseError::UnexpectedFields);
    }
    Ok(Command::Brightness(Brightness { device, brightness }))
}

impl<'a> Command<'a> {
    /// Reads one line of the protocol.
    ///
    /// Returns the command that [`parse_line`] gives for the bytes of the
    /// line, and its error where it gives one. Every text of the command
    /// borrows from the line, unless the line holds a backslash: only an
    /// escape makes a copy.
    pub fn parse(in_data: &'a str) -> (r: Result<Command<'a>, ParseError>)
        ensures
            match parse_line(in_data.spec_bytes()) {
                Ok(v) => r matches Ok(c) && c@ == v && (!has_backslash(in_data.spec_bytes())
                    ==> c.all_borrowed()),
                Err(e) => r matches Err(err) && err == e,
            },
    {
        let ghost line = in_data.spec_bytes();
        proof {
            lemma_str_ends(in_data);
        }
        let len = in_data.as_bytes().len();
        let w = crate::keyvalue::scan(in_data, 0, Class::Word);
        if w == 0 {
            return Err(ParseError::EmptyCommand);
        }
        let word = slice(in_data, 0, w);
        if str_eq(word, "PONG") {
            return Ok(Command::Pong);
        }
        if str_eq(word, "KEY-PRESS") {
            return Ok(Command::KeyPress(slice(in_data, w, len)));
        }
        if str_eq(word, "KEY-ROTATE") {
            return Ok(Command::KeyRotate(slice(in_data, w, len)));
        }
        let add = str_eq(word, "ADD-DEVICE");
        let (status, at) = if add {
            let a = crate::keyvalue::scan(in_data, w, Class::Space);
            let b = crate::keyvalue::scan(in_data, a, Class::Word);
            if a == b {
                return Err(ParseError::MissingStatus);
            }
            (slice(in_data, a, b), b)
        } else {
            ("", w)
        };
        let map = match str_to_key_value(in_data, at) {
            Ok(m) => m,
            Err(e) => {
                return Err(e);
            },
        };
        if str_eq(word, "BEGIN") {
            begin(map)
        } else if str_eq(word, "KEY-STATE") {
            key_state(map)
        } else if add {
            add_device(status, map)
        } else if str_eq(word, "BRIGHTNESS") {
            brightness(map)
        } else {
            Ok(Command::Unknown(word))
        }
    }
}

/// Whether `word` can stand as the command word of a line with fields: it is
/// not empty and holds no whitespace, and it is none of the words whose lines
/// are not read as fields alone. `KEY-PRESS` and `KEY-ROTATE` keep the rest of
/// their line as it stands, and `ADD-DEVICE` has its status before its
/// fields.
pub open spec fn is_field_command(word: Seq<u8>) -> bool {
    &&& word.len() > 0
    &&& forall|i: int| 0 <= i < word.len() ==> !is_space(#[trigger] word[i])
    &&& word != "KEY-PRESS".spec_bytes()
    &&& word != "KEY-ROTATE".spec_bytes()
    &&& word != "ADD-DEVICE".spec_bytes()
}

/// A line that is written as a command word and a list of fields says what
/// the word says of the map of the fields.
pub proof fn lemma_line_of_fields(word: Seq<u8>, fields: Seq<(Seq<u8>, Seq<u8>)>)
    requires
        is_field_command(word),
        all_names(fields),
    ensures
        parse_line(word + fields_text(fields)) == (if word == "PONG".spec_bytes() {
            Ok::<CommandView, ParseError>(CommandView::Pong)
        } else {
            command_of(word, Seq::empty(), fields_map(fields))
        }),
{
    let line = word + fields_text(fields);
    let w = word.len() as int;
    assert forall|j: int| 0 <= j < w implies !is_space(#[trigger] line[j]) by {
        assert(line[j] == word[j]);
    }
    if fields.len() > 0 {
        assert(fields_text(fields)[0] == 0x20u8);
        assert(line[w] == fields_text(fields)[0]);
    } else {
        assert(fields_text(fields).len() == 0);
    }
    lemma_run_block(line, 0, w, Class::Word);
    assert(line.subrange(0, w) =~= word);
    assert(line.subrange(w, line.len() as int) =~= fields_text(fields));
    lemma_fields_text_parses(line, w, fields);
}

/// The order of the fields of a line is irrelevant: two lines with the same
/// command word and the same fields, each field once and in whatever order,
/// say the same.
pub proof fn lemma_field_order_is_irrelevant(
    word: Seq<u8>,
    a: Seq<(Seq<u8>, Seq<u8>)>,
    b: Seq<(Seq<u8>, Seq<u8>)>,
)
    requires
        is_field_command(word),
        all_names(a),
        all_names(b),
        distinct_names(a),
        distinct_names(b),
        forall|f: (Seq<u8>, Seq<u8>)| a.contains(f) <==> b.contains(f),
    ensures
        parse_line(word + fields_text(a)) == parse_line(word + fields_text(b)),
{
    lemma_line_of_fields(word, a);
    lemma_line_of_fields(word, b);
    lemma_fields_in_any_order(a, b);
}

} // verus!
