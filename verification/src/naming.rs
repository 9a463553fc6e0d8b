//! The names under which the widgets of the bridge are known to
//! Makepad.
//!
//! The bridge calls a widget by its handle. Makepad calls it by a live
//! id, which it derives from a name. The name of the widget with handle
//! `7` is `widget7`.

use vstd::prelude::*;

verus! {

/// The live id that Makepad derives from a name.
pub uninterp spec fn live_id_of(name: Seq<char>) -> u64;

/// The character for a digit.
pub open spec fn digit_char(d: nat) -> char {
    if d == 0 {
        '0'
    } else if d == 1 {
        '1'
    } else if d == 2 {
        '2'
    } else if d == 3 {
        '3'
    } else if d == 4 {
        '4'
    } else if d == 5 {
        '5'
    } else if d == 6 {
        '6'
    } else if d == 7 {
        '7'
    } else if d == 8 {
        '8'
    } else {
        '9'
    }
}

/// A number in base ten, without leading zeros.
pub open spec fn decimal_text(n: nat) -> Seq<char>
    decreases n,
{
    if n < 10 {
        seq![digit_char(n)]
    } else {
        decimal_text(n / 10).push(digit_char(n % 10))
    }
}

/// The name of the widget with the handle `handle`.
pub open spec fn widget_name(handle: usize) -> Seq<char> {
    "widget"@ + decimal_text(handle as nat)
}

/// `LiveId::from_str` of Makepad, which hashes the bytes of a name into
/// a live id. Nothing is proved of it. The contract claims that the id
/// depends on the name alone, and calls it `live_id_of`.
#[verifier::external_body]
fn live_id_from_str(name: &str) -> (id: u64)
    ensures
        id == live_id_of(name@),
{
    makepad_live_id::LiveId::from_str(name).0
}

/// A digit as text.
fn digit_text(d: usize) -> (text: &'static str)
    requires
        d < 10,
    ensures
        text@ == seq![digit_char(d as nat)],
{
    proof {
        reveal_strlit("0");
        reveal_strlit("1");
        reveal_strlit("2");
        reveal_strlit("3");
        reveal_strlit("4");
        reveal_strlit("5");
        reveal_strlit("6");
        reveal_strlit("7");
        reveal_strlit("8");
        reveal_strlit("9");
    }
    let text = if d == 0 {
        "0"
    } else if d == 1 {
        "1"
    } else if d == 2 {
        "2"
    } else if d == 3 {
        "3"
    } else if d == 4 {
        "4"
    } else if d == 5 {
        "5"
    } else if d == 6 {
        "6"
    } else if d == 7 {
        "7"
    } else if d == 8 {
        "8"
    } else {
        "9"
    };
    assert(text@ =~= seq![digit_char(d as nat)]);
    text
}

/// Writes `n` in base ten at the end of `text`.
fn push_decimal(n: usize, text: &mut String)
    ensures
        final(text)@ == old(text)@ + decimal_text(n as nat),
    decreases n,
{
    if n >= 10 {
        push_decimal(n / 10, text);
    }
    text.append(digit_text(n % 10));
    assert(text@ =~= old(text)@ + decimal_text(n as nat));
}

/// The name of the widget with the handle `handle`: `widget` and the
/// handle in base ten.
pub fn name_of_widget(handle: usize) -> (name: String)
    ensures
        name@ == widget_name(handle),
{
    let mut name = String::from_str("widget");
    push_decimal(handle, &mut name);
    name
}

/// The live id under which Makepad knows the widget with the handle
/// `handle`: the id that it derives from the widget's name.
pub fn widget_live_id(handle: usize) -> (id: u64)
    ensures
        id == live_id_of(widget_name(handle)),
{
    let name = name_of_widget(handle);
    live_id_from_str(name.as_str())
}

} // verus!
