//! Path segments: labels, elements and prefixes, with their validation
//! and their text form.
use vstd::prelude::*;

use crate::weight::{nat_text, write_nat};

pub mod prefix;

pub use self::prefix::{Elem, Prefix};

verus! {

/// A character that may stand in a label as it is: `[0-9A-Za-z:.#$%_-]`.
pub open spec fn is_label_char(c: char) -> bool {
    ('0' <= c && c <= '9') || ('A' <= c && c <= 'Z') || ('a' <= c && c <= 'z') || c == ':' || c
        == '.' || c == '#' || c == '$' || c == '%' || c == '_' || c == '-'
}

/// A digit of an escape `\xHH`.
pub open spec fn is_hex_digit(c: char) -> bool {
    ('0' <= c && c <= '9') || ('a' <= c && c <= 'f')
}

/// An escape `\xHH` starts at index `i` of `s`.
pub open spec fn escape_at(s: Seq<char>, i: int) -> bool {
    &&& 0 <= i
    &&& i + 4 <= s.len()
    &&& s[i] == '\\'
    &&& s[i + 1] == 'x'
    &&& is_hex_digit(s[i + 2])
    &&& is_hex_digit(s[i + 3])
}

/// Reading `s` by the label grammar from index `i`, the index at which the
/// grammar first fails, or `s.len()` when it never does.
pub open spec fn label_stop(s: Seq<char>, i: int) -> int
    decreases s.len() - i,
{
    if i < 0 || i >= s.len() {
        s.len() as int
    } else if is_label_char(s[i]) {
        label_stop(s, i + 1)
    } else if escape_at(s, i) {
        label_stop(s, i + 4)
    } else {
        i
    }
}

/// `s` is a label: one or more label characters or escapes, and nothing else.
pub open spec fn is_label(s: Seq<char>) -> bool {
    s.len() > 0 && label_stop(s, 0) == s.len()
}

pub open spec fn is_ascii_char(c: char) -> bool {
    (c as u32) < 128
}

/// The index of the first non-ASCII character of `s` at or after `i`, or
/// `s.len()` when there is none.
pub open spec fn non_ascii_from(s: Seq<char>, i: int) -> int
    decreases s.len() - i,
{
    if i < 0 || i >= s.len() {
        s.len() as int
    } else if !is_ascii_char(s[i]) {
        i
    } else {
        non_ascii_from(s, i + 1)
    }
}

/// The index of the first non-ASCII character of `s`, or `s.len()`.
pub open spec fn first_non_ascii(s: Seq<char>) -> int {
    non_ascii_from(s, 0)
}

/// A validated path segment.
#[derive(Debug, PartialEq, Eq)]
pub struct Label(String);

impl Label {
    #[verifier::type_invariant]
    spec fn inv(&self) -> bool {
        is_label(self.0@)
    }
}

impl View for Label {
    type V = Seq<char>;

    closed spec fn view(&self) -> Seq<char> {
        self.0@
    }
}

/// Why a segment is not a label.
#[derive(Debug, Clone, PartialEq, Eq)]
pub enum LabelError {
    /// `ch`, at character index `at`, is outside the label grammar.
    InvalidCharacter { ch: char, at: usize, elem: String },
    /// `ch`, at character index `at`, is not ASCII.
    NonAscii { ch: char, at: usize },
}

/// `e` names the first non-ASCII character of `s`.
pub open spec fn non_ascii_error_is(s: Seq<char>, e: LabelError) -> bool {
    match e {
        LabelError::NonAscii { ch, at } => at == first_non_ascii(s) && ch == s[at as int],
        _ => false,
    }
}

/// `e` names the character of `s` at which the label grammar fails.
pub open spec fn invalid_char_error_is(s: Seq<char>, e: LabelError) -> bool {
    match e {
        LabelError::InvalidCharacter { ch, at, elem } => at == label_stop(s, 0) && ch == s[at as int]
            && elem@ == s,
        _ => false,
    }
}

/// `e` is the error that validating `s` as a label reports: the first
/// non-ASCII character if there is one, otherwise the first character at
/// which the label grammar fails.
pub open spec fn label_error_is(s: Seq<char>, e: LabelError) -> bool {
    if first_non_ascii(s) < s.len() {
        non_ascii_error_is(s, e)
    } else {
        invalid_char_error_is(s, e)
    }
}

/// Copies the characters of `s` into a vector.
pub(crate) fn chars_of(s: &str) -> (v: Vec<char>)
    ensures
        v@ == s@,
{
    let mut v: Vec<char> = Vec::new();
    for c in it: s.chars()
        invariant
            v@ == it.seq().subrange(0, it.index() as int),
            it.seq() == s@,
    {
        v.push(c);
    }
    v
}

fn is_label_char_exec(c: char) -> (r: bool)
    ensures
        r == is_label_char(c),
{
    ('0' <= c && c <= '9') || ('A' <= c && c <= 'Z') || ('a' <= c && c <= 'z') || c == ':' || c
        == '.' || c == '#' || c == '$' || c == '%' || c == '_' || c == '-'
}

fn is_hex_digit_exec(c: char) -> (r: bool)
    ensures
        r == is_hex_digit(c),
{
    ('0' <= c && c <= '9') || ('a' <= c && c <= 'f')
}

fn escape_at_exec(cs: &Vec<char>, i: usize) -> (r: bool)
    requires
        i < cs@.len(),
    ensures
        r == escape_at(cs@, i as int),
{
    cs.len() - i >= 4 && cs[i] == '\\' && cs[i + 1] == 'x' && is_hex_digit_exec(cs[i + 2])
        && is_hex_digit_exec(cs[i + 3])
}

/// The index at which the label grammar fails on `cs`, or its length.
fn scan_label(cs: &Vec<char>) -> (r: usize)
    ensures
        r == label_stop(cs@, 0),
        r <= cs@.len(),
{
    let mut i: usize = 0;
    while i < cs.len()
        invariant
            i <= cs@.len(),
            label_stop(cs@, i as int) == label_stop(cs@, 0),
        decreases cs@.len() - i,
    {
        if is_label_char_exec(cs[i]) {
            i = i + 1;
        } else if escape_at_exec(cs, i) {
            i = i + 4;
        } else {
            return i;
        }
    }
    i
}

/// The index of the first non-ASCII character of `cs`, or its length.
fn scan_non_ascii(cs: &Vec<char>) -> (r: usize)
    ensures
        r == first_non_ascii(cs@),
        r <= cs@.len(),
{
    let mut i: usize = 0;
    while i < cs.len()
        invariant
            i <= cs@.len(),
            non_ascii_from(cs@, i as int) == first_non_ascii(cs@),
        decreases cs@.len() - i,
    {
        if (cs[i] as u32) >= 128 {
            return i;
        }
        i = i + 1;
    }
    i
}

impl LabelError {
    /// Checks that `s` is all ASCII; the error names its first non-ASCII
    /// character.
    pub fn non_ascii(s: &str) -> (r: Result<&str, LabelError>)
        ensures
            first_non_ascii(s@) <= s@.len(),
            r is Ok <==> first_non_ascii(s@) == s@.len(),
            r matches Ok(t) ==> t@ == s@,
            r matches Err(e) ==> non_ascii_error_is(s@, e),
    {
        let cs = chars_of(s);
        let k = scan_non_ascii(&cs);
        if k < cs.len() {
            Err(LabelError::NonAscii { ch: cs[k], at: k })
        } else {
            Ok(s)
        }
    }

    /// Checks `s` against the label grammar; the error names the first
    /// character at which the grammar fails.
    pub fn invalid_char(s: &str) -> (r: Result<&str, LabelError>)
        ensures
            r is Ok <==> label_stop(s@, 0) == s@.len(),
            r matches Ok(t) ==> t@ == s@,
            r matches Err(e) ==> invalid_char_error_is(s@, e),
    {
        let cs = chars_of(s);
        let stop = scan_label(&cs);
        if stop < cs.len() {
            Err(LabelError::InvalidCharacter { ch: cs[stop], at: stop, elem: String::from_str(s) })
        } else {
            Ok(s)
        }
    }
}

/// The text that `{:?}` writes for the character `c`.
pub uninterp spec fn char_debug_text(c: char) -> Seq<char>;

/// The text that `{:?}` writes for the string `s`.
pub uninterp spec fn str_debug_text(s: Seq<char>) -> Seq<char>;

/// Relies on `char`'s `Debug` formatting: `c` quoted and escaped, which
/// depends on `c` alone.
#[verifier::external_body]
fn debug_char(c: char) -> (r: String)
    ensures
        r@ == char_debug_text(c),
{
    format!("{:?}", c)
}

/// Relies on `str`'s `Debug` formatting: `s` quoted and escaped, which
/// depends on the characters of `s` alone.
#[verifier::external_body]
fn debug_str(s: &str) -> (r: String)
    ensures
        r@ == str_debug_text(s@),
{
    format!("{:?}", s)
}

/// The message of an invalid character: `ch_text` and `elem_text` stand
/// for the quoted forms of the character and of the segment.
pub open spec fn invalid_char_message(ch_text: Seq<char>, at: usize, elem_text: Seq<char>) -> Seq<
    char,
> {
    "Invalid character "@ + ch_text + " at position "@ + nat_text(at as nat) + " in "@ + elem_text
        + "."@
}

/// The message of a non-ASCII character: `ch_text` stands for its quoted
/// form.
pub open spec fn non_ascii_message(ch_text: Seq<char>, at: usize) -> Seq<char> {
    "Non-ASCII character "@ + ch_text + " at position "@ + nat_text(at as nat) + "."@
}

/// The message of `e`, with `ch_text` and `elem_text` for the quoted forms
/// of its character and, where it has one, its segment.
pub open spec fn label_error_message(e: LabelError, ch_text: Seq<char>, elem_text: Seq<char>) -> Seq<
    char,
> {
    match e {
        LabelError::InvalidCharacter { at, .. } => invalid_char_message(ch_text, at, elem_text),
        LabelError::NonAscii { at, .. } => non_ascii_message(ch_text, at),
    }
}

/// Writes the message of an invalid character.
fn write_invalid_char(ch_text: &str, at: usize, elem_text: &str) -> (r: String)
    ensures
        r@ == invalid_char_message(ch_text@, at, elem_text@),
{
    let mut out = String::new();
    out.append("Invalid character ");
    out.append(ch_text);
    out.append(" at position ");
    write_nat(at as u64, &mut out);
    out.append(" in ");
    out.append(elem_text);
    out.append(".");
    assert(out@ =~= invalid_char_message(ch_text@, at, elem_text@));
    out
}

impl LabelError {
    /// The error's message, given the quoted forms of its character and,
    /// for an invalid character, of its segment.
    pub fn message_with(&self, ch_text: &str, elem_text: &str) -> (r: String)
        ensures
            r@ == label_error_message(*self, ch_text@, elem_text@),
    {
        match self {
            LabelError::InvalidCharacter { at, .. } => write_invalid_char(ch_text, *at, elem_text),
            LabelError::NonAscii { at, .. } => {
                let mut out = String::new();
                out.append("Non-ASCII character ");
                out.append(ch_text);
                out.append(" at position ");
                write_nat(*at as u64, &mut out);
                out.append(".");
                assert(out@ =~= non_ascii_message(ch_text@, *at));
                out
            },
        }
    }

    /// The error's message, the character and the segment quoted as `{:?}`
    /// writes them.
    pub fn message(&self) -> (r: String)
        ensures
            r@ == match self {
                LabelError::InvalidCharacter { ch, at, elem } => invalid_char_message(
                    char_debug_text(*ch),
                    *at,
                    str_debug_text(elem@),
                ),
                LabelError::NonAscii { ch, at } => non_ascii_message(char_debug_text(*ch), *at),
            },
    {
        match self {
            LabelError::InvalidCharacter { ch, at, elem } => {
                let c = debug_char(*ch);
                let t = debug_str(elem.as_str());
                self.message_with(c.as_str(), t.as_str())
            },
            LabelError::NonAscii { ch, .. } => {
                let c = debug_char(*ch);
                self.message_with(c.as_str(), "")
            },
        }
    }

    /// A short description of the kind of error.
    pub fn description(&self) -> (r: &'static str)
        ensures
            self is InvalidCharacter ==> r@ == "invalid character"@,
            self is NonAscii ==> r@ == "non-ASCII character"@,
    {
        match self {
            LabelError::InvalidCharacter { .. } => "invalid character",
            LabelError::NonAscii { .. } => "non-ASCII character",
        }
    }
}

impl PathError {
    /// The error's message, the character and the segment quoted as `{:?}`
    /// writes them.
    pub fn message(&self) -> (r: String)
        ensures
            r@ == match self {
                PathError::InvalidCharacter { ch, at, elem } => invalid_char_message(
                    char_debug_text(*ch),
                    *at,
                    str_debug_text(elem@),
                ),
            },
    {
        match self {
            PathError::InvalidCharacter { ch, at, elem } => {
                let c = debug_char(*ch);
                let t = debug_str(elem.as_str());
                write_invalid_char(c.as_str(), *at, t.as_str())
            },
        }
    }
}

/// A label holds no non-ASCII character from index `i` on.
proof fn lemma_label_ascii(s: Seq<char>, i: int)
    requires
        0 <= i <= s.len(),
        label_stop(s, i) == s.len(),
    ensures
        non_ascii_from(s, i) == s.len(),
    decreases s.len() - i,
{
    if i < s.len() {
        if is_label_char(s[i]) {
            lemma_label_ascii(s, i + 1);
        } else {
            lemma_label_ascii(s, i + 4);
            assert(non_ascii_from(s, i + 3) == s.len());
            assert(non_ascii_from(s, i + 2) == s.len());
            assert(non_ascii_from(s, i + 1) == s.len());
        }
    }
}

impl Label {
    /// Validates `s` as a label. The text is kept as it is. A non-ASCII
    /// character is reported before any other fault.
    pub fn try_from(s: &str) -> (r: Result<Label, LabelError>)
        requires
            s@.len() > 0,
        ensures
            r is Ok <==> is_label(s@),
            r matches Ok(l) ==> l@ == s@,
            r matches Err(e) ==> label_error_is(s@, e),
    {
        proof {
            if is_label(s@) {
                lemma_label_ascii(s@, 0);
            }
        }
        match LabelError::non_ascii(s) {
            Err(e) => Err(e),
            Ok(t) => match LabelError::invalid_char(t) {
                Err(e) => Err(e),
                Ok(t) => {
                    let text = String::from_str(t);
                    assert(is_label(text@));
                    Ok(Label(text))
                },
            },
        }
    }

    /// The label's text, which is a label.
    pub fn as_str(&self) -> (r: &str)
        ensures
            r@ == self@,
            is_label(r@),
    {
        proof {
            use_type_invariant(self);
        }
        self.0.as_str()
    }
}

/// The byte that separates path segments.
pub const SLASH: u8 = 0x2f;

/// A sequence of raw byte segments.
pub struct Path(pub Vec<Vec<u8>>);

/// A character that a path segment may not hold.
#[derive(Debug, Clone, PartialEq, Eq)]
pub enum PathError {
    InvalidCharacter { ch: char, at: usize, elem: String },
}

/// The bytes of a path whose segments are `segs`: a `/` before each one.
pub open spec fn path_bytes(segs: Seq<Seq<u8>>) -> Seq<u8>
    decreases segs.len(),
{
    if segs.len() == 0 {
        Seq::empty()
    } else {
        path_bytes(segs.drop_last()) + seq![SLASH] + segs.last()
    }
}

impl View for Path {
    type V = Seq<Seq<u8>>;

    open spec fn view(&self) -> Seq<Seq<u8>> {
        self.0@.map_values(|v: Vec<u8>| v@)
    }
}

impl Path {
    /// A path of the single segment `bytes`.
    pub fn from_bytes(bytes: &[u8]) -> (r: Path)
        ensures
            r@ == seq![bytes@],
    {
        let mut v: Vec<Vec<u8>> = Vec::new();
        v.push(vstd::slice::slice_to_vec(bytes));
        let r = Path(v);
        assert(r@ =~= seq![bytes@]);
        r
    }

    /// Appends the segment `seg`.
    pub fn append(&mut self, seg: &[u8]) -> (r: Result<(), PathError>)
        ensures
            r is Ok,
            final(self)@ == old(self)@.push(seg@),
    {
        self.0.push(vstd::slice::slice_to_vec(seg));
        assert(final(self)@ =~= old(self)@.push(seg@));
        Ok(())
    }

    /// This path with the segment `seg` appended.
    pub fn div(self, seg: &[u8]) -> (r: Path)
        ensures
            r@ == self@.push(seg@),
    {
        let mut p = self;
        let _ = p.append(seg);
        p
    }

    /// Appends each of `segs`, in order.
    pub fn extend(&mut self, segs: &Vec<Vec<u8>>)
        ensures
            final(self)@ == old(self)@ + segs@.map_values(|v: Vec<u8>| v@),
    {
        let ghost start = self@;
        let mut i: usize = 0;
        while i < segs.len()
            invariant
                i <= segs@.len(),
                self@ == start + segs@.subrange(0, i as int).map_values(|v: Vec<u8>| v@),
            decreases segs@.len() - i,
        {
            let _ = self.append(segs[i].as_slice());
            assert(segs@.subrange(0, i + 1).map_values(|v: Vec<u8>| v@) =~= segs@.subrange(
                0,
                i as int,
            ).map_values(|v: Vec<u8>| v@).push(segs@[i as int]@));
            assert(self@ =~= start + segs@.subrange(0, i + 1).map_values(|v: Vec<u8>| v@));
            i = i + 1;
        }
        assert(segs@.subrange(0, i as int) =~= segs@);
    }

    /// The path's bytes: `/` before each segment.
    pub fn render(&self) -> (r: Vec<u8>)
        ensures
            r@ == path_bytes(self@),
    {
        let mut out: Vec<u8> = Vec::new();
        let mut i: usize = 0;
        while i < self.0.len()
            invariant
                i <= self@.len(),
                out@ == path_bytes(self@.subrange(0, i as int)),
            decreases self@.len() - i,
        {
            out.push(SLASH);
            let mut seg = vstd::slice::slice_to_vec(self.0[i].as_slice());
            out.append(&mut seg);
            assert(self@.subrange(0, i + 1).drop_last() =~= self@.subrange(0, i as int));
            assert(out@ =~= path_bytes(self@.subrange(0, i + 1)));
            i = i + 1;
        }
        assert(self@.subrange(0, i as int) =~= self@);
        out
    }
}

} // verus!
