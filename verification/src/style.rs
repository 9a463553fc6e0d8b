//! The attribute and style translator: from a declared attribute to the
//! property writes it stands for.
//!
//! Only the `style` attribute is understood. Its value is a list of
//! `property: value` declarations separated by `;`. Two properties are
//! known: `text-align`, which takes one of the keywords `left`, `center`
//! and `right`, and `margin-top`, which takes a length. A length is read
//! as its leading run of decimal digits; whatever follows is taken for a
//! unit and ignored, so every length is in the one unit the widgets use.
//! Anything else is skipped without complaint.

use vstd::prelude::*;
use crate::error::ErrorKind;
use crate::text::{
    chars_of, find_char, lemma_find_char_bounds, position_of, slice_of, spells, trim, trimmed,
};

verus! {

/// Where text sits along the horizontal axis.
#[derive(Clone, Copy, Debug, PartialEq, Eq, Structural)]
pub enum Alignment {
    Left,
    Center,
    Right,
}

/// One write to a property of a native widget.
#[derive(Clone, Copy, Debug, PartialEq, Eq, Structural)]
pub enum PropertyWrite {
    /// Set the horizontal alignment.
    Align(Alignment),
    /// Set the space above the widget.
    MarginTop(u32),
}

/// What translating a `style` value gave.
pub struct Translation {
    /// The writes of the declarations that were understood, in order.
    pub writes: Vec<PropertyWrite>,
    /// How many declarations were skipped for a malformed length.
    pub malformed: usize,
}

pub open spec fn is_digit(c: char) -> bool {
    0x30 <= c as u32 <= 0x39
}

/// The end of the run of digits that starts at `i`.
pub open spec fn digit_run(s: Seq<char>, i: int) -> int
    decreases s.len() - i,
{
    if 0 <= i < s.len() && is_digit(s[i]) {
        digit_run(s, i + 1)
    } else {
        i
    }
}

/// The number that the first `n` characters of `s` spell in base ten.
pub open spec fn decimal(s: Seq<char>, n: int) -> nat
    decreases n,
{
    if n <= 0 || n > s.len() {
        0
    } else {
        decimal(s, n - 1) * 10 + (s[n - 1] as u32 - 0x30) as nat
    }
}

/// The length that `s` states: its leading digits, if there are any and
/// their value fits in 32 bits.
pub open spec fn length_value(s: Seq<char>) -> Option<u32> {
    let n = digit_run(s, 0);
    if n == 0 || decimal(s, n) > u32::MAX {
        None
    } else {
        Some(decimal(s, n) as u32)
    }
}

/// The alignment that a keyword names.
pub open spec fn alignment_of(word: Seq<char>) -> Option<Alignment> {
    if word == "left"@ {
        Some(Alignment::Left)
    } else if word == "center"@ {
        Some(Alignment::Center)
    } else if word == "right"@ {
        Some(Alignment::Right)
    } else {
        None
    }
}

/// What one declaration stands for: a write, nothing (`Ok(None)`: it is
/// not of the form `name: value`, or names nothing known), or
/// `MalformedLength`.
pub open spec fn declaration(d: Seq<char>) -> Result<Option<PropertyWrite>, ErrorKind> {
    let t = trim(d);
    let colon = find_char(t, ':', 0);
    if colon >= t.len() || find_char(t, ':', colon + 1) < t.len() {
        Ok(None)
    } else {
        let name = trim(t.subrange(0, colon));
        let value = trim(t.subrange(colon + 1, t.len() as int));
        if name == "text-align"@ {
            match alignment_of(value) {
                Some(a) => Ok(Some(PropertyWrite::Align(a))),
                None => Ok(None),
            }
        } else if name == "margin-top"@ {
            match length_value(value) {
                Some(n) => Ok(Some(PropertyWrite::MarginTop(n))),
                None => Err(ErrorKind::MalformedLength),
            }
        } else {
            Ok(None)
        }
    }
}

/// The writes of the declarations of `s` that start at or after `lo`.
pub open spec fn style_writes(s: Seq<char>, lo: int) -> Seq<PropertyWrite>
    decreases s.len() - lo,
{
    if lo < 0 || lo > s.len() {
        Seq::empty()
    } else {
        let end = find_char(s, ';', lo);
        proof {
            lemma_find_char_bounds(s, ';', lo);
        }
        let rest = if end < s.len() {
            style_writes(s, end + 1)
        } else {
            Seq::empty()
        };
        match declaration(s.subrange(lo, end)) {
            Ok(Some(w)) => seq![w] + rest,
            _ => rest,
        }
    }
}

/// How many declarations of `s` that start at or after `lo` have a
/// malformed length.
pub open spec fn style_faults(s: Seq<char>, lo: int) -> nat
    decreases s.len() - lo,
{
    if lo < 0 || lo > s.len() {
        0
    } else {
        let end = find_char(s, ';', lo);
        proof {
            lemma_find_char_bounds(s, ';', lo);
        }
        let rest = if end < s.len() {
            style_faults(s, end + 1)
        } else {
            0
        };
        match declaration(s.subrange(lo, end)) {
            Err(_) => 1 + rest,
            _ => rest,
        }
    }
}

/// The writes that an attribute stands for.
pub open spec fn attribute_writes(name: Seq<char>, value: Seq<char>) -> Seq<PropertyWrite> {
    if name == "style"@ {
        style_writes(value, 0)
    } else {
        Seq::empty()
    }
}

/// How many declarations of an attribute have a malformed length.
pub open spec fn attribute_faults(name: Seq<char>, value: Seq<char>) -> nat {
    if name == "style"@ {
        style_faults(value, 0)
    } else {
        0
    }
}

proof fn lemma_digit_run_bounds(s: Seq<char>, i: int)
    requires
        0 <= i <= s.len(),
    ensures
        i <= digit_run(s, i) <= s.len(),
    decreases s.len() - i,
{
    if i < s.len() && is_digit(s[i]) {
        lemma_digit_run_bounds(s, i + 1);
    }
}

proof fn lemma_decimal_grows(s: Seq<char>, i: int, n: int)
    requires
        0 <= i <= n <= s.len(),
        forall|k: int| 0 <= k < n ==> is_digit(s[k]),
    ensures
        decimal(s, i) <= decimal(s, n),
    decreases n - i,
{
    if i < n {
        lemma_decimal_grows(s, i, n - 1);
    }
}

proof fn lemma_digit_run_digits(s: Seq<char>, i: int)
    requires
        0 <= i <= s.len(),
    ensures
        forall|k: int| i <= k < digit_run(s, i) ==> is_digit(s[k]),
    decreases s.len() - i,
{
    if i < s.len() && is_digit(s[i]) {
        lemma_digit_run_digits(s, i + 1);
    }
}

/// Whether `c` is a decimal digit.
fn char_is_digit(c: char) -> (r: bool)
    ensures
        r == is_digit(c),
{
    let u: u32 = c as u32;
    0x30 <= u && u <= 0x39
}

/// Reads a length: the leading digits of `v`.
fn parse_length(v: &Vec<char>) -> (r: Option<u32>)
    ensures
        r == length_value(v@),
{
    let n = v.len();
    let mut i: usize = 0;
    let mut acc: u64 = 0;
    while i < n && char_is_digit(v[i])
        invariant
            i <= n == v.len(),
            digit_run(v@, i as int) == digit_run(v@, 0),
            forall|k: int| 0 <= k < i ==> is_digit(v@[k]),
            acc == decimal(v@, i as int),
            acc <= u32::MAX,
        decreases n - i,
    {
        let d: u64 = (v[i] as u32 - 0x30) as u64;
        acc = acc * 10 + d;
        i += 1;
        if acc > 0xFFFF_FFFF {
            proof {
                let end = digit_run(v@, 0);
                lemma_digit_run_bounds(v@, i as int);
                lemma_digit_run_digits(v@, 0);
                lemma_decimal_grows(v@, i as int, end);
            }
            return None;
        }
    }
    if i == 0 {
        None
    } else {
        Some(acc as u32)
    }
}

/// Reads an alignment keyword.
fn parse_alignment(v: &Vec<char>) -> (r: Option<Alignment>)
    ensures
        r == alignment_of(v@),
{
    if spells(v, "left") {
        Some(Alignment::Left)
    } else if spells(v, "center") {
        Some(Alignment::Center)
    } else if spells(v, "right") {
        Some(Alignment::Right)
    } else {
        None
    }
}

/// Translates the declaration held in `d`.
fn translate_chars(d: &Vec<char>) -> (r: Result<Option<PropertyWrite>, ErrorKind>)
    ensures
        r == declaration(d@),
{
    let t = trimmed(d);
    let colon = position_of(&t, ':', 0);
    if colon >= t.len() {
        return Ok(None);
    }
    let second = position_of(&t, ':', colon + 1);
    if second < t.len() {
        return Ok(None);
    }
    let name = trimmed(&slice_of(&t, 0, colon));
    let value = trimmed(&slice_of(&t, colon + 1, t.len()));
    if spells(&name, "text-align") {
        match parse_alignment(&value) {
            Some(a) => Ok(Some(PropertyWrite::Align(a))),
            None => Ok(None),
        }
    } else if spells(&name, "margin-top") {
        match parse_length(&value) {
            Some(n) => Ok(Some(PropertyWrite::MarginTop(n))),
            None => Err(ErrorKind::MalformedLength),
        }
    } else {
        Ok(None)
    }
}

/// Translates one declaration, such as `margin-top: 20px`.
///
/// Gives the write it stands for, `Ok(None)` where it is skipped, and
/// `MalformedLength` where a length has no numeric prefix that fits.
pub fn translate_declaration(decl: &str) -> (r: Result<Option<PropertyWrite>, ErrorKind>)
    ensures
        r == declaration(decl@),
{
    let d = chars_of(decl);
    translate_chars(&d)
}

/// Translates the value of a `style` attribute, declaration by
/// declaration. A malformed length costs only its own declaration: it is
/// counted, and translation goes on with the next one.
pub fn translate_style(value: &str) -> (t: Translation)
    ensures
        t.writes@ == style_writes(value@, 0),
        t.malformed == style_faults(value@, 0),
{
    let s = chars_of(value);
    let n = s.len();
    let mut writes: Vec<PropertyWrite> = Vec::new();
    let mut malformed: usize = 0;
    let mut lo: usize = 0;
    loop
        invariant
            lo <= n == s.len(),
            s@ == value@,
            malformed <= lo,
            writes@ + style_writes(s@, lo as int) == style_writes(s@, 0),
            malformed + style_faults(s@, lo as int) == style_faults(s@, 0),
        decreases n - lo,
    {
        let end = position_of(&s, ';', lo);
        let piece = slice_of(&s, lo, end);
        let ghost before = writes@;
        let ghost rest = if end < n {
            style_writes(s@, end + 1)
        } else {
            Seq::empty()
        };
        match translate_chars(&piece) {
            Ok(Some(w)) => {
                writes.push(w);
                assert(before + (seq![w] + rest) =~= before.push(w) + rest);
            },
            Ok(None) => {},
            Err(_) => {
                proof {
                    lemma_fault_is_not_empty(piece@);
                }
                malformed += 1;
            },
        }
        if end >= n {
            assert(writes@ + rest =~= writes@);
            return Translation { writes, malformed };
        }
        lo = end + 1;
    }
}

/// A declaration with a malformed length holds at least one character.
proof fn lemma_fault_is_not_empty(d: Seq<char>)
    requires
        declaration(d) is Err,
    ensures
        d.len() > 0,
{
    if d.len() == 0 {
        assert(trim(d).len() == 0);
    }
}

/// Translates an attribute: the writes of a `style` attribute, and
/// nothing for any other name.
pub fn translate(name: &str, value: &str) -> (t: Translation)
    ensures
        t.writes@ == attribute_writes(name@, value@),
        t.malformed == attribute_faults(name@, value@),
{
    let n = chars_of(name);
    if spells(&n, "style") {
        translate_style(value)
    } else {
        Translation { writes: Vec::new(), malformed: 0 }
    }
}

} // verus!
