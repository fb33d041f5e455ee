//! The field grammar of a protocol line: `KEY=value` pairs separated by
//! whitespace, where a value is a bare word or a double-quoted string with
//! backslash escapes.
//!
//! The grammar is stated over the UTF-8 bytes of the line. Every delimiter is
//! an ASCII byte, so a cut made at a delimiter never splits a character.

use vstd::prelude::*;
use vstd::string::*;
use vstd::utf8::*;
use crate::common::StringOrStr;
use crate::text::{lemma_ascii_is_boundary, lemma_boundary_after_ascii, lemma_encode_concat,
    lemma_str_ends, slice, str_eq};

verus! {

/// Why a line was rejected.
#[derive(Debug, Clone, Copy, PartialEq, Eq, Structural)]
pub enum ParseError {
    /// The line is empty or starts with whitespace: there is no command word.
    EmptyCommand,
    /// An `ADD-DEVICE` line ends before its status token.
    MissingStatus,
    /// A field name is not followed by `=`.
    MissingEquals,
    /// A quoted value is not closed, or the line ends right after a backslash.
    UnterminatedQuote,
    /// A field that the command requires is absent.
    MissingField,
    /// A numeric field is not a decimal number that fits its type.
    InvalidNumber,
    /// Fields are left over once the command has taken those it knows.
    UnexpectedFields,
}

/// The classes of bytes that the grammar scans runs of.
#[derive(Debug, Clone, Copy, PartialEq, Eq, Structural)]
pub enum Class {
    /// Space, tab, carriage return and line feed.
    Space,
    /// ASCII letters and digits, `_` and `-`: what a field name is made of.
    Key,
    /// Everything that is not whitespace: what a bare word is made of.
    Word,
}

pub const QUOTE: u8 = 0x22;

pub const BACKSLASH: u8 = 0x5c;

pub const EQUALS: u8 = 0x3d;

/// Whitespace of the protocol: space, tab, carriage return, line feed.
pub open spec fn is_space(b: u8) -> bool {
    b == 0x20 || b == 0x09 || b == 0x0d || b == 0x0a
}

/// Bytes of a field name: ASCII letters, digits, `_` and `-`.
pub open spec fn is_key_byte(b: u8) -> bool {
    (0x30 <= b <= 0x39) || (0x41 <= b <= 0x5a) || (0x61 <= b <= 0x7a) || b == 0x5f || b == 0x2d
}

/// Whether byte `b` belongs to class `c`.
pub open spec fn in_class(c: Class, b: u8) -> bool {
    match c {
        Class::Space => is_space(b),
        Class::Key => is_key_byte(b),
        Class::Word => !is_space(b),
    }
}

/// End of the longest run of bytes of class `c` that starts at `i`.
pub open spec fn run_end(s: Seq<u8>, i: int, c: Class) -> int
    decreases s.len() - i,
{
    if 0 <= i < s.len() && in_class(c, s[i]) {
        run_end(s, i + 1, c)
    } else {
        i
    }
}

/// A run ends at or behind its start, inside the text, and consists of bytes
/// of its class only; the byte that stops it is not of the class.
pub proof fn lemma_run_end(s: Seq<u8>, i: int, c: Class)
    requires
        0 <= i <= s.len(),
    ensures
        i <= run_end(s, i, c) <= s.len(),
        forall|j: int| i <= j < run_end(s, i, c) ==> in_class(c, #[trigger] s[j]),
        run_end(s, i, c) < s.len() ==> !in_class(c, s[run_end(s, i, c)]),
    decreases s.len() - i,
{
    if i < s.len() && in_class(c, s[i]) {
        lemma_run_end(s, i + 1, c);
    }
}

fn byte_in_class(c: Class, b: u8) -> (r: bool)
    ensures
        r == in_class(c, b),
{
    let space = b == 0x20 || b == 0x09 || b == 0x0d || b == 0x0a;
    match c {
        Class::Space => space,
        Class::Key => (0x30 <= b && b <= 0x39) || (0x41 <= b && b <= 0x5a) || (0x61 <= b && b
            <= 0x7a) || b == 0x5f || b == 0x2d,
        Class::Word => !space,
    }
}

/// Scans the run of class `c` that starts at byte `i` of `s`.
pub(crate) fn scan(s: &str, i: usize, c: Class) -> (r: usize)
    requires
        i <= s.spec_bytes().len(),
        is_char_boundary(s.spec_bytes(), i as int),
    ensures
        r == run_end(s.spec_bytes(), i as int, c),
        i <= r <= s.spec_bytes().len(),
        is_char_boundary(s.spec_bytes(), r as int),
{
    let b = s.as_bytes();
    let mut k: usize = i;
    proof {
        lemma_str_ends(s);
    }
    while k < b.len() && byte_in_class(c, b[k])
        invariant
            i <= k <= b.len(),
            b@ == s.spec_bytes(),
            run_end(b@, i as int, c) == run_end(b@, k as int, c),
        decreases b.len() - k,
    {
        k += 1;
    }
    proof {
        let bytes = s.spec_bytes();
        lemma_run_end(bytes, i as int, c);
        if k == i {
        } else if k == bytes.len() {
        } else if c == Class::Word {
            lemma_ascii_is_boundary(bytes, k as int);
        } else {
            assert(in_class(c, bytes[k - 1]));
            lemma_boundary_after_ascii(bytes, k - 1);
        }
    }
    k
}

/// Puts `p` in front of the value of a parsed quoted string.
pub open spec fn prepend(p: Seq<u8>, r: Option<(Seq<u8>, int)>) -> Option<(Seq<u8>, int)> {
    match r {
        Some((v, e)) => Some((p + v, e)),
        None => None,
    }
}

/// The text of a quoted string whose opening quote stands just before `i`,
/// with the offset behind its closing quote.
///
/// A backslash makes the byte behind it part of the text, whatever it is; an
/// unescaped `"` closes the string. `None` where the text ends first.
pub open spec fn quoted_value(s: Seq<u8>, i: int) -> Option<(Seq<u8>, int)>
    decreases s.len() - i,
{
    if i < 0 || i >= s.len() {
        None
    } else if s[i] == QUOTE {
        Some((Seq::empty(), i + 1))
    } else if s[i] == BACKSLASH {
        if i + 1 >= s.len() {
            None
        } else {
            prepend(seq![s[i + 1]], quoted_value(s, i + 2))
        }
    } else {
        prepend(seq![s[i]], quoted_value(s, i + 1))
    }
}

/// Whether a backslash occurs in the quoted string at `i` before it closes.
pub open spec fn has_escape(s: Seq<u8>, i: int) -> bool
    decreases s.len() - i,
{
    if i < 0 || i >= s.len() {
        false
    } else if s[i] == QUOTE {
        false
    } else if s[i] == BACKSLASH {
        true
    } else {
        has_escape(s, i + 1)
    }
}

/// Whether a backslash occurs anywhere in the text.
pub open spec fn has_backslash(s: Seq<u8>) -> bool {
    exists|j: int| 0 <= j < s.len() && #[trigger] s[j] == BACKSLASH
}

/// A quoted string holds an escape only where the text holds a backslash.
pub proof fn lemma_escape_needs_backslash(s: Seq<u8>, i: int)
    requires
        0 <= i,
    ensures
        has_escape(s, i) ==> has_backslash(s),
    decreases s.len() - i,
{
    if i < s.len() && s[i] != QUOTE {
        if s[i] == BACKSLASH {
            assert(s[i] == BACKSLASH);
        } else {
            lemma_escape_needs_backslash(s, i + 1);
        }
    }
}

/// A value in the grammar: a quoted string where it starts with `"`, else the
/// run of non-whitespace bytes, which may be empty.
pub open spec fn parse_value(s: Seq<u8>, i: int) -> Result<(Seq<u8>, int), ParseError> {
    if 0 <= i < s.len() && s[i] == QUOTE {
        match quoted_value(s, i + 1) {
            Some(r) => Ok(r),
            None => Err(ParseError::UnterminatedQuote),
        }
    } else {
        Ok((s.subrange(i, run_end(s, i, Class::Word)), run_end(s, i, Class::Word)))
    }
}

/// One `KEY = value` pair at `i`: the name, the value and the offset behind it.
pub open spec fn parse_pair(s: Seq<u8>, i: int) -> Result<(Seq<u8>, Seq<u8>, int), ParseError> {
    let k = run_end(s, i, Class::Key);
    let e = run_end(s, k, Class::Space);
    if e < s.len() && s[e] == EQUALS {
        match parse_value(s, run_end(s, e + 1, Class::Space)) {
            Ok((v, end)) => Ok((s.subrange(i, k), v, end)),
            Err(err) => Err(err),
        }
    } else {
        Err(ParseError::MissingEquals)
    }
}

/// The fields of the text from `i` on, as a map from name to value. Where a
/// name occurs twice the later value stands.
pub open spec fn parse_fields(s: Seq<u8>, i: int) -> Result<Map<Seq<u8>, Seq<u8>>, ParseError>
    decreases s.len() - i,
    via parse_fields_decreases
{
    let p = run_end(s, i, Class::Space);
    if i < 0 || p >= s.len() {
        Ok(Map::empty())
    } else {
        match parse_pair(s, p) {
            Err(err) => Err(err),
            Ok((k, v, end)) => match parse_fields(s, end) {
                Err(err) => Err(err),
                Ok(rest) => Ok(map![k => v].union_prefer_right(rest)),
            },
        }
    }
}

/// A quoted string that closes, closes behind where it starts.
pub proof fn lemma_quoted_value(s: Seq<u8>, i: int)
    requires
        0 <= i,
    ensures
        quoted_value(s, i) matches Some((v, e)) ==> i < e <= s.len() && s[e - 1] == QUOTE,
    decreases s.len() - i,
{
    if i < s.len() && s[i] != QUOTE {
        if s[i] == BACKSLASH {
            if i + 1 < s.len() {
                lemma_quoted_value(s, i + 2);
            }
        } else {
            lemma_quoted_value(s, i + 1);
        }
    }
}

/// A pair ends behind its `=`.
pub proof fn lemma_parse_pair(s: Seq<u8>, i: int)
    requires
        0 <= i <= s.len(),
    ensures
        parse_pair(s, i) matches Ok((k, v, end)) ==> i < end <= s.len(),
{
    let k = run_end(s, i, Class::Key);
    lemma_run_end(s, i, Class::Key);
    let e = run_end(s, k, Class::Space);
    lemma_run_end(s, k, Class::Space);
    if e < s.len() && s[e] == EQUALS {
        let v = run_end(s, e + 1, Class::Space);
        lemma_run_end(s, e + 1, Class::Space);
        lemma_run_end(s, v, Class::Word);
        lemma_quoted_value(s, v + 1);
    }
}

#[via_fn]
proof fn parse_fields_decreases(s: Seq<u8>, i: int) {
    if i >= 0 && i <= s.len() {
        lemma_run_end(s, i, Class::Space);
        let p = run_end(s, i, Class::Space);
        if p < s.len() {
            lemma_parse_pair(s, p);
        }
    }
}

/// Reads the quoted string whose opening quote stands just before byte
/// `start` of `s`.
///
/// The value borrows from `s` unless an escape had to be resolved.
pub(crate) fn quoted_string<'a>(s: &'a str, start: usize) -> (r: Result<
    (StringOrStr<'a>, usize),
    ParseError,
>)
    requires
        start <= s.spec_bytes().len(),
        is_char_boundary(s.spec_bytes(), start as int),
    ensures
        match quoted_value(s.spec_bytes(), start as int) {
            Some((v, e)) => r matches Ok((value, end)) && value.bytes() == v && end == e
                && value.is_borrowed() == !has_escape(s.spec_bytes(), start as int)
                && start < end <= s.spec_bytes().len()
                && is_char_boundary(s.spec_bytes(), end as int),
            None => r == Err::<(StringOrStr<'a>, usize), ParseError>(
                ParseError::UnterminatedQuote,
            ),
        },
{
    let b = s.as_bytes();
    let ghost bytes = s.spec_bytes();
    let mut acc: Option<String> = None;
    let mut run_start: usize = start;
    let mut i: usize = start;
    let ghost mut prefix: Seq<u8> = Seq::empty();
    proof {
        lemma_str_ends(s);
        assert(prefix + bytes.subrange(start as int, start as int) =~= Seq::<u8>::empty());
        assert(quoted_value(bytes, start as int) == prepend(
            Seq::<u8>::empty(),
            quoted_value(bytes, start as int),
        )) by {
            match quoted_value(bytes, start as int) {
                Some((v, e)) => {
                    assert(Seq::<u8>::empty() + v =~= v);
                },
                None => {},
            }
        }
    }
    loop
        invariant
            b@ == bytes,
            bytes == s.spec_bytes(),
            valid_utf8(bytes),
            start <= run_start <= i <= bytes.len(),
            is_char_boundary(bytes, run_start as int),
            match acc {
                Some(a) => encode_utf8(a@) == prefix,
                None => prefix == Seq::<u8>::empty(),
            },
            quoted_value(bytes, start as int) == prepend(
                prefix + bytes.subrange(run_start as int, i as int),
                quoted_value(bytes, i as int),
            ),
            has_escape(bytes, start as int) == (acc.is_some() || has_escape(bytes, i as int)),
        decreases bytes.len() - i,
    {
        if i >= b.len() {
            return Err(ParseError::UnterminatedQuote);
        }
        let c = b[i];
        if c == QUOTE {
            proof {
                lemma_ascii_is_boundary(bytes, i as int);
                lemma_boundary_after_ascii(bytes, i as int);
                assert(prefix + bytes.subrange(run_start as int, i as int) + Seq::<u8>::empty()
                    =~= prefix + bytes.subrange(run_start as int, i as int));
            }
            let piece = slice(s, run_start, i);
            let value = match acc {
                None => {
                    assert(prefix + bytes.subrange(run_start as int, i as int)
                        =~= piece.spec_bytes());
                    StringOrStr::Str(piece)
                },
                Some(a) => {
                    let mut a = a;
                    proof {
                        lemma_encode_concat(a@, piece@);
                    }
                    a.append(piece);
                    StringOrStr::String(a)
                },
            };
            return Ok((value, i + 1));
        } else if c == BACKSLASH {
            if i + 1 >= b.len() {
                return Err(ParseError::UnterminatedQuote);
            }
            proof {
                lemma_ascii_is_boundary(bytes, i as int);
                lemma_boundary_after_ascii(bytes, i as int);
            }
            let piece = slice(s, run_start, i);
            let mut a = match acc {
                Some(a) => a,
                None => String::new(),
            };
            proof {
                lemma_encode_concat(a@, piece@);
                let before = prefix + bytes.subrange(run_start as int, i as int);
                let rest = quoted_value(bytes, i + 2);
                assert(bytes.subrange(i + 1, i + 2) =~= seq![bytes[i + 1]]);
                match rest {
                    Some((v, e)) => {
                        assert(before + (seq![bytes[i + 1]] + v) =~= (before + bytes.subrange(
                            i + 1,
                            i + 2,
                        )) + v);
                    },
                    None => {},
                }
                prefix = before;
            }
            a.append(piece);
            acc = Some(a);
            run_start = i + 1;
            i = i + 2;
        } else {
            proof {
                let before = prefix + bytes.subrange(run_start as int, i as int);
                let rest = quoted_value(bytes, i + 1);
                assert(prefix + bytes.subrange(run_start as int, i + 1) =~= before + seq![
                    bytes[i as int],
                ]);
                match rest {
                    Some((v, e)) => {
                        assert(before + (seq![bytes[i as int]] + v) =~= (before + seq![
                            bytes[i as int],
                        ]) + v);
                    },
                    None => {},
                }
            }
            i = i + 1;
        }
    }
}

/// Reads the bare word at byte `start` of `s`: the bytes up to the next
/// whitespace or the end. The value always borrows from `s`.
pub(crate) fn unquoted_string<'a>(s: &'a str, start: usize) -> (r: (StringOrStr<'a>, usize))
    requires
        start <= s.spec_bytes().len(),
        is_char_boundary(s.spec_bytes(), start as int),
    ensures
        r.1 == run_end(s.spec_bytes(), start as int, Class::Word),
        r.0.bytes() == s.spec_bytes().subrange(start as int, r.1 as int),
        r.0.is_borrowed(),
        start <= r.1 <= s.spec_bytes().len(),
        is_char_boundary(s.spec_bytes(), r.1 as int),
{
    let end = scan(s, start, Class::Word);
    (StringOrStr::Str(slice(s, start, end)), end)
}

/// The fields of one line, by name. Reading a field takes it out, so that what
/// is left once a command has taken its fields is what the line held too much.
#[derive(Debug)]
pub struct ParseMap<'a> {
    entries: Vec<(&'a str, StringOrStr<'a>)>,
}

/// The map that a list of entries stands for.
pub open spec fn entries_map(e: Seq<(&str, StringOrStr)>) -> Map<Seq<u8>, Seq<u8>>
    decreases e.len(),
{
    if e.len() == 0 {
        Map::empty()
    } else {
        entries_map(e.drop_last()).insert(e.last().0.spec_bytes(), e.last().1.bytes())
    }
}

/// No name occurs twice among the entries.
pub open spec fn distinct_keys(e: Seq<(&str, StringOrStr)>) -> bool {
    forall|i: int, j: int|
        0 <= i < j < e.len() ==> (#[trigger] e[i]).0.spec_bytes() != (#[trigger] e[j]).0.spec_bytes()
}

/// Whether some entry has the name `k`.
pub open spec fn has_key(e: Seq<(&str, StringOrStr)>, k: Seq<u8>) -> bool {
    exists|i: int| 0 <= i < e.len() && (#[trigger] e[i]).0.spec_bytes() == k
}

proof fn lemma_entries_dom(e: Seq<(&str, StringOrStr)>, k: Seq<u8>)
    ensures
        entries_map(e).contains_key(k) == has_key(e, k),
        entries_map(e).dom().finite(),
    decreases e.len(),
{
    if e.len() > 0 {
        let init = e.drop_last();
        lemma_entries_dom(init, k);
        if has_key(init, k) {
            let i = choose|i: int| 0 <= i < init.len() && (#[trigger] init[i]).0.spec_bytes() == k;
            assert(e[i].0.spec_bytes() == k);
        }
        if has_key(e, k) {
            let i = choose|i: int| 0 <= i < e.len() && (#[trigger] e[i]).0.spec_bytes() == k;
            if i < init.len() {
                assert(init[i].0.spec_bytes() == k);
            }
        }
        if e.last().0.spec_bytes() == k {
            assert(e[e.len() - 1].0.spec_bytes() == k);
        }
    }
}

proof fn lemma_entries_value(e: Seq<(&str, StringOrStr)>, i: int)
    requires
        distinct_keys(e),
        0 <= i < e.len(),
    ensures
        entries_map(e).contains_key(e[i].0.spec_bytes()),
        entries_map(e)[e[i].0.spec_bytes()] == e[i].1.bytes(),
    decreases e.len(),
{
    let init = e.drop_last();
    if i < e.len() - 1 {
        assert(init[i] == e[i]);
        assert(e[i].0.spec_bytes() != e[e.len() - 1].0.spec_bytes());
        lemma_entries_value(init, i);
    }
}

proof fn lemma_entries_len(e: Seq<(&str, StringOrStr)>)
    requires
        distinct_keys(e),
    ensures
        entries_map(e).dom().finite(),
        entries_map(e).len() == e.len(),
    decreases e.len(),
{
    if e.len() > 0 {
        let init = e.drop_last();
        let k = e.last().0.spec_bytes();
        lemma_entries_len(init);
        lemma_entries_dom(init, k);
        if has_key(init, k) {
            let i = choose|i: int| 0 <= i < init.len() && (#[trigger] init[i]).0.spec_bytes() == k;
            assert(e[i].0.spec_bytes() == e[e.len() - 1].0.spec_bytes());
        }
        assert(entries_map(e).dom() =~= entries_map(init).dom().insert(k));
    }
}

proof fn lemma_entries_remove(e: Seq<(&str, StringOrStr)>, i: int)
    requires
        distinct_keys(e),
        0 <= i < e.len(),
    ensures
        distinct_keys(e.remove(i)),
        entries_map(e.remove(i)) == entries_map(e).remove(e[i].0.spec_bytes()),
    decreases e.len(),
{
    let init = e.drop_last();
    let last = e.last();
    let k = e[i].0.spec_bytes();
    let r = e.remove(i);
    assert forall|a: int, b: int| 0 <= a < b < r.len() implies (#[trigger] r[a]).0.spec_bytes() != (
    #[trigger] r[b]).0.spec_bytes() by {
        let a2 = if a < i { a } else { a + 1 };
        let b2 = if b < i { b } else { b + 1 };
        assert(r[a] == e[a2]);
        assert(r[b] == e[b2]);
    }
    if i == e.len() - 1 {
        assert(r =~= init);
        lemma_entries_dom(init, k);
        if has_key(init, k) {
            let j = choose|j: int| 0 <= j < init.len() && (#[trigger] init[j]).0.spec_bytes() == k;
            assert(e[j].0.spec_bytes() == e[e.len() - 1].0.spec_bytes());
        }
        assert(entries_map(init) =~= entries_map(e).remove(k));
    } else {
        assert(r.drop_last() =~= init.remove(i));
        assert(r.last() == last);
        assert(init[i] == e[i]);
        lemma_entries_remove(init, i);
        assert(e[i].0.spec_bytes() != e[e.len() - 1].0.spec_bytes());
        assert(entries_map(r) =~= entries_map(e).remove(k));
    }
}

proof fn lemma_entries_update(e: Seq<(&str, StringOrStr)>, i: int, n: (&str, StringOrStr))
    requires
        distinct_keys(e),
        0 <= i < e.len(),
        n.0.spec_bytes() == e[i].0.spec_bytes(),
    ensures
        distinct_keys(e.update(i, n)),
        entries_map(e.update(i, n)) == entries_map(e).insert(n.0.spec_bytes(), n.1.bytes()),
    decreases e.len(),
{
    let init = e.drop_last();
    let u = e.update(i, n);
    let k = n.0.spec_bytes();
    assert forall|a: int, b: int| 0 <= a < b < u.len() implies (#[trigger] u[a]).0.spec_bytes() != (
    #[trigger] u[b]).0.spec_bytes() by {
        assert(u[a].0.spec_bytes() == e[a].0.spec_bytes());
        assert(u[b].0.spec_bytes() == e[b].0.spec_bytes());
    }
    if i == e.len() - 1 {
        assert(u.drop_last() =~= init);
        assert(entries_map(u) =~= entries_map(e).insert(k, n.1.bytes()));
    } else {
        assert(u.drop_last() =~= init.update(i, n));
        assert(u.last() == e.last());
        assert(init[i] == e[i]);
        lemma_entries_update(init, i, n);
        assert(e[i].0.spec_bytes() != e[e.len() - 1].0.spec_bytes());
        assert(entries_map(u) =~= entries_map(e).insert(k, n.1.bytes()));
    }
}

impl<'a> View for ParseMap<'a> {
    type V = Map<Seq<u8>, Seq<u8>>;

    /// The fields that are left, from the bytes of each name to the bytes of
    /// its value.
    closed spec fn view(&self) -> Map<Seq<u8>, Seq<u8>> {
        entries_map(self.entries@)
    }
}

impl<'a> ParseMap<'a> {
    #[verifier::type_invariant]
    spec fn distinct(&self) -> bool {
        distinct_keys(self.entries@)
    }

    /// Whether every value that is left borrows its text from the line.
    pub closed spec fn all_borrowed(&self) -> bool {
        forall|i: int| 0 <= i < self.entries@.len() ==> (#[trigger] self.entries@[i]).1.is_borrowed()
    }

    /// A map without fields.
    pub fn new() -> (r: Self)
        ensures
            r@ == Map::<Seq<u8>, Seq<u8>>::empty(),
            r.all_borrowed(),
    {
        ParseMap { entries: Vec::new() }
    }

    fn find(&self, key: &str) -> (r: Option<usize>)
        ensures
            match r {
                Some(i) => i < self.entries@.len() && self.entries@[i as int].0.spec_bytes()
                    == key.spec_bytes(),
                None => !has_key(self.entries@, key.spec_bytes()),
            },
    {
        let mut i: usize = 0;
        while i < self.entries.len()
            invariant
                i <= self.entries@.len(),
                forall|j: int|
                    0 <= j < i ==> (#[trigger] self.entries@[j]).0.spec_bytes() != key.spec_bytes(),
            decreases self.entries@.len() - i,
        {
            if str_eq(self.entries[i].0, key) {
                return Some(i);
            }
            i += 1;
        }
        None
    }

    /// Binds `key` to `value`, in place of what `key` was bound to before.
    pub(crate) fn insert(&mut self, key: &'a str, value: StringOrStr<'a>)
        ensures
            final(self)@ == old(self)@.insert(key.spec_bytes(), value.bytes()),
            old(self).all_borrowed() && value.is_borrowed() ==> final(self).all_borrowed(),
    {
        proof {
            use_type_invariant(&*self);
        }
        let found = self.find(key);
        let mut entries: Vec<(&'a str, StringOrStr<'a>)> = Vec::new();
        std::mem::swap(&mut entries, &mut self.entries);
        let ghost before = entries@;
        match found {
            Some(i) => {
                proof {
                    lemma_entries_update(before, i as int, (key, value));
                }
                entries.set(i, (key, value));
            },
            None => {
                entries.push((key, value));
                proof {
                    let after = entries@;
                    assert(after.drop_last() =~= before);
                    assert forall|a: int, b: int| 0 <= a < b < after.len() implies (
                    #[trigger] after[a]).0.spec_bytes() != (#[trigger] after[b]).0.spec_bytes() by {
                        assert(after[a] == before[a]);
                        if b < before.len() {
                            assert(after[b] == before[b]);
                        }
                    }
                }
            },
        }
        self.entries = entries;
    }

    /// Takes the field `key` out of the map and returns its value.
    pub fn get(&mut self, key: &str) -> (r: Result<StringOrStr<'a>, ParseError>)
        ensures
            match r {
                Ok(v) => old(self)@.contains_key(key.spec_bytes()) && v.bytes() == old(self)@[key.spec_bytes()]
                    && final(self)@ == old(self)@.remove(key.spec_bytes()) && (old(
                    self,
                ).all_borrowed() ==> v.is_borrowed()),
                Err(e) => e == ParseError::MissingField && !old(self)@.contains_key(
                    key.spec_bytes(),
                ) && final(self)@ == old(self)@,
            },
            old(self).all_borrowed() ==> final(self).all_borrowed(),
    {
        proof {
            use_type_invariant(&*self);
            lemma_entries_dom(self.entries@, key.spec_bytes());
        }
        match self.find(key) {
            None => Err(ParseError::MissingField),
            Some(i) => {
                let mut entries: Vec<(&'a str, StringOrStr<'a>)> = Vec::new();
                std::mem::swap(&mut entries, &mut self.entries);
                proof {
                    lemma_entries_remove(entries@, i as int);
                    lemma_entries_value(entries@, i as int);
                }
                let ghost before = entries@;
                let entry = entries.remove(i);
                proof {
                    assert forall|k: int| 0 <= k < entries@.len() implies (#[trigger] entries@[k])
                        == before[if k < i { k } else { k + 1 }] by {}
                }
                self.entries = entries;
                Ok(entry.1)
            },
        }
    }

    /// The names of the fields that are left, in no particular order.
    pub fn keys(&self) -> (r: Vec<&'a str>)
        ensures
            r@.len() == self@.len(),
            forall|i: int| 0 <= i < r@.len() ==> self@.contains_key((#[trigger] r@[i]).spec_bytes()),
            forall|k: Seq<u8>|
                self@.contains_key(k) ==> exists|i: int|
                    0 <= i < r@.len() && (#[trigger] r@[i]).spec_bytes() == k,
    {
        proof {
            use_type_invariant(&*self);
            lemma_entries_len(self.entries@);
        }
        let mut out: Vec<&'a str> = Vec::new();
        let mut i: usize = 0;
        while i < self.entries.len()
            invariant
                i <= self.entries@.len(),
                out@.len() == i,
                forall|j: int| 0 <= j < i ==> #[trigger] out@[j] == self.entries@[j].0,
            decreases self.entries@.len() - i,
        {
            out.push(self.entries[i].0);
            i += 1;
        }
        proof {
            let e = self.entries@;
            assert forall|j: int| 0 <= j < out@.len() implies self@.contains_key(
                (#[trigger] out@[j]).spec_bytes(),
            ) by {
                lemma_entries_dom(e, out@[j].spec_bytes());
                assert(e[j].0.spec_bytes() == out@[j].spec_bytes());
            }
            assert forall|k: Seq<u8>| self@.contains_key(k) implies exists|j: int|
                0 <= j < out@.len() && (#[trigger] out@[j]).spec_bytes() == k by {
                lemma_entries_dom(e, k);
                let j = choose|j: int| 0 <= j < e.len() && (#[trigger] e[j]).0.spec_bytes() == k;
                assert(out@[j].spec_bytes() == k);
            }
        }
        out
    }

    /// How many fields are left.
    pub fn len(&self) -> (r: usize)
        ensures
            self@.dom().finite(),
            r == self@.len(),
    {
        proof {
            use_type_invariant(&*self);
            lemma_entries_len(self.entries@);
        }
        self.entries.len()
    }

    /// Whether no field is left.
    pub fn is_empty(&self) -> (r: bool)
        ensures
            r == (self@ == Map::<Seq<u8>, Seq<u8>>::empty()),
    {
        proof {
            use_type_invariant(&*self);
            lemma_entries_len(self.entries@);
            if self.entries@.len() == 0 {
            } else {
                lemma_entries_value(self.entries@, 0);
            }
        }
        self.entries.len() == 0
    }
}

/// What `done` and the fields still to come make together.
pub open spec fn with_rest(
    done: Map<Seq<u8>, Seq<u8>>,
    rest: Result<Map<Seq<u8>, Seq<u8>>, ParseError>,
) -> Result<Map<Seq<u8>, Seq<u8>>, ParseError> {
    match rest {
        Ok(m) => Ok(done.union_prefer_right(m)),
        Err(e) => Err(e),
    }
}

/// Reads the fields of `s` from byte `start` on.
pub(crate) fn str_to_key_value<'a>(s: &'a str, start: usize) -> (r: Result<
    ParseMap<'a>,
    ParseError,
>)
    requires
        start <= s.spec_bytes().len(),
        is_char_boundary(s.spec_bytes(), start as int),
    ensures
        match parse_fields(s.spec_bytes(), start as int) {
            Ok(m) => r matches Ok(map) && map@ == m && (!has_backslash(s.spec_bytes())
                ==> map.all_borrowed()),
            Err(e) => r matches Err(err) && err == e,
        },
{
    let b = s.as_bytes();
    let ghost bytes = s.spec_bytes();
    let mut map = ParseMap::new();
    let mut head: usize = start;
    proof {
        lemma_str_ends(s);
        match parse_fields(bytes, start as int) {
            Ok(m) => {
                assert(Map::<Seq<u8>, Seq<u8>>::empty().union_prefer_right(m) =~= m);
            },
            Err(e) => {},
        }
    }
    loop
        invariant
            b@ == bytes,
            bytes == s.spec_bytes(),
            valid_utf8(bytes),
            start <= head <= bytes.len(),
            is_char_boundary(bytes, head as int),
            parse_fields(bytes, start as int) == with_rest(map@, parse_fields(bytes, head as int)),
            !has_backslash(bytes) ==> map.all_borrowed(),
        decreases bytes.len() - head,
    {
        let p = scan(s, head, Class::Space);
        if p >= b.len() {
            proof {
                assert(map@.union_prefer_right(Map::<Seq<u8>, Seq<u8>>::empty()) =~= map@);
            }
            return Ok(map);
        }
        let k = scan(s, p, Class::Key);
        let e = scan(s, k, Class::Space);
        if e >= b.len() || b[e] != EQUALS {
            return Err(ParseError::MissingEquals);
        }
        proof {
            lemma_boundary_after_ascii(bytes, e as int);
        }
        let v = scan(s, e + 1, Class::Space);
        let ghost done = map@;
        let (value, end) = if v < b.len() && b[v] == QUOTE {
            proof {
                lemma_boundary_after_ascii(bytes, v as int);
                lemma_escape_needs_backslash(bytes, v + 1);
            }
            match quoted_string(s, v + 1) {
                Ok(r) => r,
                Err(err) => {
                    return Err(err);
                },
            }
        } else {
            unquoted_string(s, v)
        };
        let key = slice(s, p, k);
        map.insert(key, value);
        proof {
            let kb = key.spec_bytes();
            let vb = value.bytes();
            assert(parse_pair(bytes, p as int) == Ok::<(Seq<u8>, Seq<u8>, int), ParseError>(
                (kb, vb, end as int),
            ));
            match parse_fields(bytes, end as int) {
                Ok(m) => {
                    assert(done.union_prefer_right(map![kb => vb].union_prefer_right(m))
                        =~= done.insert(kb, vb).union_prefer_right(m));
                },
                Err(err) => {},
            }
        }
        head = end;
    }
}

impl<'a> ParseMap<'a> {
    /// Reads the fields of a text that holds nothing but fields.
    ///
    /// Empty and all-whitespace texts give the empty map. A name that is not
    /// followed by `=` and a quoted value that is not closed are errors.
    /// Where the text holds no backslash every value borrows from it.
    pub fn try_from(value: &'a str) -> (r: Result<Self, ParseError>)
        ensures
            match parse_fields(value.spec_bytes(), 0) {
                Ok(m) => r matches Ok(map) && map@ == m && (!has_backslash(value.spec_bytes())
                    ==> map.all_borrowed()),
                Err(e) => r matches Err(err) && err == e,
            },
    {
        proof {
            lemma_str_ends(value);
        }
        str_to_key_value(value, 0)
    }
}

/// How one byte of a value is written inside quotes: `"` and `\` behind a
/// backslash, every other byte as it is.
pub open spec fn escaped_byte(b: u8) -> Seq<u8> {
    if is_special(b) {
        seq![BACKSLASH, b]
    } else {
        seq![b]
    }
}

/// Whether `b` is a quote or a backslash.
pub open spec fn is_special(b: u8) -> bool {
    b == QUOTE || b == BACKSLASH
}

/// Whether a quote or a backslash occurs in `v`.
pub open spec fn has_special(v: Seq<u8>) -> bool {
    exists|j: int| 0 <= j < v.len() && is_special(#[trigger] v[j])
}

/// A value as it is written between quotes.
pub open spec fn escaped(v: Seq<u8>) -> Seq<u8>
    decreases v.len(),
{
    if v.len() == 0 {
        Seq::empty()
    } else {
        escaped_byte(v[0]) + escaped(v.drop_first())
    }
}

/// A value written as a quoted string.
pub open spec fn quoted(v: Seq<u8>) -> Seq<u8> {
    seq![QUOTE] + escaped(v) + seq![QUOTE]
}

/// Writes a text as a quoted string: between quotes, with a backslash before
/// every quote and every backslash of the text.
pub fn quote(text: &str) -> (r: String)
    ensures
        encode_utf8(r@) == quoted(text.spec_bytes()),
{
    let b = text.as_bytes();
    let ghost bytes = text.spec_bytes();
    let mut out = String::new();
    proof {
        lemma_str_ends(text);
        reveal_strlit("\"");
        reveal_strlit("\\");
        is_ascii_chars_encode_utf8("\""@);
        is_ascii_chars_encode_utf8("\\"@);
        assert(encode_utf8("\""@) =~= seq![QUOTE]);
        assert(encode_utf8("\\"@) =~= seq![BACKSLASH]);
        lemma_encode_concat(out@, "\""@);
    }
    out.append("\"");
    let mut run_start: usize = 0;
    let mut i: usize = 0;
    proof {
        assert(bytes.subrange(0, 0) =~= Seq::<u8>::empty());
        assert(encode_utf8(out@) + bytes.subrange(0, 0) =~= seq![QUOTE] + escaped(
            bytes.subrange(0, 0),
        ));
    }
    while i < b.len()
        invariant
            b@ == bytes,
            bytes == text.spec_bytes(),
            valid_utf8(bytes),
            run_start <= i <= bytes.len(),
            is_char_boundary(bytes, run_start as int),
            encode_utf8("\\"@) == seq![BACKSLASH],
            encode_utf8("\""@) == seq![QUOTE],
            encode_utf8(out@) + bytes.subrange(run_start as int, i as int) == seq![QUOTE] + escaped(
                bytes.subrange(0, i as int),
            ),
        decreases bytes.len() - i,
    {
        let c = b[i];
        proof {
            lemma_escaped_push(bytes.subrange(0, i as int), c);
            assert(bytes.subrange(0, i + 1) =~= bytes.subrange(0, i as int).push(c));
        }
        if c == QUOTE || c == BACKSLASH {
            proof {
                lemma_ascii_is_boundary(bytes, i as int);
            }
            let piece = slice(text, run_start, i);
            let ghost before = encode_utf8(out@);
            let ghost run = bytes.subrange(run_start as int, i as int);
            proof {
                lemma_encode_concat(out@, piece@);
                lemma_encode_concat(out@ + piece@, "\\"@);
                assert(encode_utf8(piece@) == run);
            }
            out.append(piece);
            out.append("\\");
            run_start = i;
            proof {
                assert(encode_utf8(out@) == before + run + seq![BACKSLASH]);
                assert(bytes.subrange(i as int, i + 1) =~= seq![c]);
                assert(escaped_byte(c) =~= seq![BACKSLASH] + seq![c]);
                assert(before + run == seq![QUOTE] + escaped(bytes.subrange(0, i as int)));
                assert(before + run + seq![BACKSLASH] + seq![c] =~= (before + run) + (seq![
                    BACKSLASH,
                ] + seq![c]));
                let esc0 = escaped(bytes.subrange(0, i as int));
                let lhs = encode_utf8(out@) + bytes.subrange(run_start as int, i + 1);
                assert(lhs == before + run + seq![BACKSLASH] + seq![c]);
                assert(lhs == (seq![QUOTE] + esc0) + (seq![BACKSLASH] + seq![c]));
                assert(lhs == (seq![QUOTE] + esc0) + escaped_byte(c));
                assert((seq![QUOTE] + esc0) + escaped_byte(c) =~= seq![QUOTE] + (esc0
                    + escaped_byte(c)));
                assert(escaped(bytes.subrange(0, i + 1)) == esc0 + escaped_byte(c));
                assert(lhs == seq![QUOTE] + escaped(bytes.subrange(0, i + 1)));
            }
        } else {
            proof {
                let run = bytes.subrange(run_start as int, i as int);
                let esc0 = escaped(bytes.subrange(0, i as int));
                assert(bytes.subrange(run_start as int, i + 1) =~= run.push(c));
                assert(escaped_byte(c) =~= seq![c]);
                assert(encode_utf8(out@) + run.push(c) =~= (encode_utf8(out@) + run).push(c));
                assert((seq![QUOTE] + esc0).push(c) =~= seq![QUOTE] + (esc0 + seq![c]));
                assert(escaped(bytes.subrange(0, i + 1)) == esc0 + escaped_byte(c));
            }
        }
        i += 1;
    }
    let piece = slice(text, run_start, i);
    proof {
        lemma_encode_concat(out@, piece@);
        lemma_encode_concat(out@ + piece@, "\""@);
        assert(bytes.subrange(0, i as int) =~= bytes);
    }
    out.append(piece);
    out.append("\"");
    assert(encode_utf8(out@) =~= quoted(bytes));
    out
}

/// Escaping goes byte by byte.
pub proof fn lemma_escaped_push(v: Seq<u8>, b: u8)
    ensures
        escaped(v.push(b)) == escaped(v) + escaped_byte(b),
    decreases v.len(),
{
    if v.len() == 0 {
        let one = v.push(b);
        assert(one.drop_first() =~= Seq::<u8>::empty());
        assert(escaped(one.drop_first()) =~= Seq::<u8>::empty());
        assert(one[0] == b);
        assert(escaped(one) == escaped_byte(b) + escaped(one.drop_first()));
        assert(escaped(one) =~= escaped(v) + escaped_byte(b));
    } else {
        lemma_escaped_push(v.drop_first(), b);
        assert(v.push(b).drop_first() =~= v.drop_first().push(b));
        assert(escaped(v.push(b)) =~= escaped(v) + escaped_byte(b));
    }
}

proof fn lemma_escaped_parses(s: Seq<u8>, i: int, v: Seq<u8>)
    requires
        0 <= i,
        i + escaped(v).len() < s.len(),
        s.subrange(i, i + escaped(v).len()) == escaped(v),
        s[i + escaped(v).len()] == QUOTE,
    ensures
        quoted_value(s, i) == Some((v, i + escaped(v).len() + 1)),
        has_escape(s, i) == has_special(v),
    decreases v.len(),
{
    if v.len() == 0 {
        assert(Seq::<u8>::empty() =~= v);
    } else {
        let t = v.drop_first();
        let n = escaped_byte(v[0]).len() as int;
        let e = escaped(v);
        assert(e.len() == n + escaped(t).len());
        assert(s[i] == e[0]);
        assert(s.subrange(i + n, i + n + escaped(t).len()) =~= escaped(t)) by {
            assert forall|j: int| 0 <= j < escaped(t).len() implies s[i + n + j] == escaped(t)[j] by {
                assert(s[i + n + j] == e[n + j]);
            }
        }
        lemma_escaped_parses(s, i + n, t);
        if is_special(v[0]) {
            assert(s[i + 1] == e[1]);
        } else {
            if has_special(t) {
                let j = choose|j: int| 0 <= j < t.len() && is_special(#[trigger] t[j]);
                assert(is_special(v[j + 1]));
            }
            if has_special(v) {
                let j = choose|j: int| 0 <= j < v.len() && is_special(#[trigger] v[j]);
                assert(is_special(t[j - 1]));
            }
        }
        assert(seq![v[0]] + t =~= v);
    }
}

/// Writing a value as a quoted string and reading it back gives the value:
/// whatever bytes `v` holds, quotes and backslashes among them, and whatever
/// text follows the closing quote.
///
/// The value read is borrowed exactly where `v` holds neither a quote nor a
/// backslash.
pub proof fn lemma_quote_round_trip(v: Seq<u8>, rest: Seq<u8>)
    ensures
        parse_value(quoted(v) + rest, 0) == Ok::<(Seq<u8>, int), ParseError>(
            (v, quoted(v).len() as int),
        ),
        has_escape(quoted(v) + rest, 1) == has_special(v),
{
    let s = quoted(v) + rest;
    assert(s[0] == QUOTE);
    assert(s.subrange(1, 1 + escaped(v).len() as int) =~= escaped(v));
    assert(s[1 + escaped(v).len() as int] == QUOTE);
    lemma_escaped_parses(s, 1, v);
}

/// A run that is made of bytes of its class, and behind which the text ends
/// or a byte of another class stands, ends there.
pub proof fn lemma_run_block(s: Seq<u8>, from: int, to: int, c: Class)
    requires
        0 <= from <= to <= s.len(),
        forall|j: int| from <= j < to ==> in_class(c, #[trigger] s[j]),
        to < s.len() ==> !in_class(c, s[to]),
    ensures
        run_end(s, from, c) == to,
    decreases to - from,
{
    if from < to {
        lemma_run_block(s, from + 1, to, c);
    }
}

/// Whether `name` can stand as the name of a field: it is made of letters,
/// digits, `_` and `-`.
pub open spec fn is_name(name: Seq<u8>) -> bool {
    forall|i: int| 0 <= i < name.len() ==> is_key_byte(#[trigger] name[i])
}

/// Whether every field of the list has a name that can stand as one.
pub open spec fn all_names(fields: Seq<(Seq<u8>, Seq<u8>)>) -> bool {
    forall|i: int| 0 <= i < fields.len() ==> is_name((#[trigger] fields[i]).0)
}

/// Whether no two fields of the list have the same name.
pub open spec fn distinct_names(fields: Seq<(Seq<u8>, Seq<u8>)>) -> bool {
    forall|i: int, j: int|
        0 <= i < j < fields.len() ==> (#[trigger] fields[i]).0 != (#[trigger] fields[j]).0
}

/// One field as it is written on a line: a space, the name, `=`, and the
/// value as a quoted string.
pub open spec fn field_text(name: Seq<u8>, value: Seq<u8>) -> Seq<u8> {
    seq![0x20u8] + name + seq![EQUALS] + quoted(value)
}

/// A list of fields as it is written on a line, one field after the other.
pub open spec fn fields_text(fields: Seq<(Seq<u8>, Seq<u8>)>) -> Seq<u8>
    decreases fields.len(),
{
    if fields.len() == 0 {
        Seq::empty()
    } else {
        field_text(fields[0].0, fields[0].1) + fields_text(fields.drop_first())
    }
}

/// The map that a list of fields stands for. Where a name occurs twice the
/// later value stands.
pub open spec fn fields_map(fields: Seq<(Seq<u8>, Seq<u8>)>) -> Map<Seq<u8>, Seq<u8>>
    decreases fields.len(),
{
    if fields.len() == 0 {
        Map::empty()
    } else {
        map![fields[0].0 => fields[0].1].union_prefer_right(fields_map(fields.drop_first()))
    }
}

/// Fields that are written on a line are read back as they were: the text of
/// a list of fields, wherever it stands at the end of a line, parses to the
/// map of the list.
pub proof fn lemma_fields_text_parses(s: Seq<u8>, i: int, fields: Seq<(Seq<u8>, Seq<u8>)>)
    requires
        0 <= i <= s.len(),
        s.subrange(i, s.len() as int) == fields_text(fields),
        all_names(fields),
    ensures
        parse_fields(s, i) == Ok::<Map<Seq<u8>, Seq<u8>>, ParseError>(fields_map(fields)),
    decreases fields.len(),
{
    let t = s.subrange(i, s.len() as int);
    if fields.len() == 0 {
        assert(t.len() == 0);
        assert(run_end(s, i, Class::Space) == i);
    } else {
        let name = fields[0].0;
        let value = fields[0].1;
        let rest = fields.drop_first();
        let tail = fields_text(rest);
        let n = name.len() as int;
        let esc = escaped(value).len() as int;
        assert(is_name(fields[0].0));
        assert(t == seq![0x20u8] + name + seq![EQUALS] + (seq![QUOTE] + escaped(value) + seq![
            QUOTE,
        ]) + tail);
        assert(t.len() == 4 + n + esc + tail.len());
        assert forall|j: int| 0 <= j < t.len() implies s[i + j] == t[j] by {}
        assert(t[0] == 0x20u8);
        assert forall|j: int| 0 <= j < n implies t[1 + j] == name[j] by {}
        assert(t[1 + n] == EQUALS);
        assert(t[2 + n] == QUOTE);
        assert forall|j: int| 0 <= j < esc implies t[3 + n + j] == escaped(value)[j] by {}
        assert(t[3 + n + esc] == QUOTE);
        assert forall|j: int| 0 <= j < tail.len() implies t[4 + n + esc + j] == tail[j] by {}
        let p = i + 1;
        let k = p + n;
        let end = k + 3 + esc;
        // the space before the field
        assert(s[i] == t[0]);
        assert(s[p] == t[1]);
        assert(!is_space(s[p])) by {
            if n > 0 {
                assert(s[p] == name[0]);
                assert(is_key_byte(name[0]));
            }
        }
        lemma_run_block(s, i, p, Class::Space);
        // the name
        assert forall|j: int| p <= j < k implies in_class(Class::Key, #[trigger] s[j]) by {
            assert(s[j] == t[j - i]);
            assert(t[1 + (j - p)] == name[j - p]);
        }
        assert(s[k] == t[1 + n]);
        lemma_run_block(s, p, k, Class::Key);
        assert(s.subrange(p, k) =~= name);
        // the equals sign and the opening quote
        lemma_run_block(s, k, k, Class::Space);
        assert(s[k + 1] == t[2 + n]);
        lemma_run_block(s, k + 1, k + 1, Class::Space);
        // the value
        assert(s.subrange(k + 2, k + 2 + esc) =~= escaped(value)) by {
            assert forall|j: int| 0 <= j < esc implies s[k + 2 + j] == escaped(value)[j] by {
                assert(s[k + 2 + j] == t[3 + n + j]);
            }
        }
        assert(s[k + 2 + esc] == t[3 + n + esc]);
        lemma_escaped_parses(s, k + 2, value);
        assert(parse_value(s, k + 1) == Ok::<(Seq<u8>, int), ParseError>((value, end)));
        assert(parse_pair(s, p) == Ok::<(Seq<u8>, Seq<u8>, int), ParseError>((name, value, end)));
        // the fields behind it
        assert(s.subrange(end, s.len() as int) =~= tail) by {
            assert forall|j: int| 0 <= j < tail.len() implies s[end + j] == tail[j] by {
                assert(s[end + j] == t[4 + n + esc + j]);
            }
        }
        assert forall|j: int| 0 <= j < rest.len() implies is_name((#[trigger] rest[j]).0) by {
            assert(rest[j] == fields[j + 1]);
        }
        lemma_fields_text_parses(s, end, rest);
    }
}

/// The names of the map of a list of fields are the names of the list, and
/// where no name occurs twice every field of the list stands in the map with
/// its value.
pub proof fn lemma_fields_map(fields: Seq<(Seq<u8>, Seq<u8>)>, name: Seq<u8>)
    ensures
        fields_map(fields).contains_key(name) <==> exists|i: int|
            0 <= i < fields.len() && (#[trigger] fields[i]).0 == name,
        distinct_names(fields) ==> forall|i: int|
            0 <= i < fields.len() && (#[trigger] fields[i]).0 == name ==> fields_map(fields)[name]
                == fields[i].1,
    decreases fields.len(),
{
    if fields.len() > 0 {
        let rest = fields.drop_first();
        lemma_fields_map(rest, name);
        if exists|i: int| 0 <= i < rest.len() && (#[trigger] rest[i]).0 == name {
            let i = choose|i: int| 0 <= i < rest.len() && (#[trigger] rest[i]).0 == name;
            assert(fields[i + 1].0 == name);
        }
        if exists|i: int| 0 <= i < fields.len() && (#[trigger] fields[i]).0 == name {
            let i = choose|i: int| 0 <= i < fields.len() && (#[trigger] fields[i]).0 == name;
            if i > 0 {
                assert(rest[i - 1].0 == name);
            }
        }
        if distinct_names(fields) {
            assert forall|a: int, b: int| 0 <= a < b < rest.len() implies (#[trigger] rest[a]).0 != (
            #[trigger] rest[b]).0 by {
                assert(rest[a] == fields[a + 1]);
                assert(rest[b] == fields[b + 1]);
            }
            assert forall|i: int|
                0 <= i < fields.len() && (#[trigger] fields[i]).0 == name implies fields_map(
                fields,
            )[name] == fields[i].1 by {
                if i == 0 {
                    if fields_map(rest).contains_key(name) {
                        let j = choose|j: int| 0 <= j < rest.len() && (#[trigger] rest[j]).0 == name;
                        assert(fields[j + 1].0 == name);
                        assert(fields[0].0 != fields[j + 1].0);
                    }
                } else {
                    assert(rest[i - 1] == fields[i]);
                }
            }
        }
    }
}

/// The order of the fields is irrelevant: two lists of fields that hold the
/// same fields, each under names that do not repeat, stand for the same map.
pub proof fn lemma_fields_in_any_order(a: Seq<(Seq<u8>, Seq<u8>)>, b: Seq<(Seq<u8>, Seq<u8>)>)
    requires
        distinct_names(a),
        distinct_names(b),
        forall|f: (Seq<u8>, Seq<u8>)| a.contains(f) <==> b.contains(f),
    ensures
        fields_map(a) == fields_map(b),
{
    assert forall|name: Seq<u8>| #[trigger]
        fields_map(a).contains_key(name) == fields_map(b).contains_key(name) && (fields_map(
            a,
        ).contains_key(name) ==> fields_map(a)[name] == fields_map(b)[name]) by {
        lemma_fields_map(a, name);
        lemma_fields_map(b, name);
        if fields_map(a).contains_key(name) {
            let i = choose|i: int| 0 <= i < a.len() && (#[trigger] a[i]).0 == name;
            assert(a.contains(a[i]));
            assert(b.contains(a[i]));
            let j = choose|j: int| 0 <= j < b.len() && b[j] == a[i];
            assert(b[j].0 == name);
        }
        if fields_map(b).contains_key(name) {
            let j = choose|j: int| 0 <= j < b.len() && (#[trigger] b[j]).0 == name;
            assert(b.contains(b[j]));
            assert(a.contains(b[j]));
            let i = choose|i: int| 0 <= i < a.len() && a[i] == b[j];
            assert(a[i].0 == name);
        }
    }
    assert(fields_map(a) =~= fields_map(b));
}

} // verus!
