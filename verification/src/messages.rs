//! The one-line messages that the panel shows for the last action.

use vstd::prelude::*;
use crate::numbers::{decimal_digits, u64_to_chars};
use crate::text::{append_chars, string_of, to_chars};

verus! {

/// A text followed by another text.
pub fn text_with(head: &str, tail: &str) -> (r: String)
    ensures
        r@ == head@ + tail@,
{
    let mut out = to_chars(head);
    let rest = to_chars(tail);
    append_chars(&mut out, &rest);
    string_of(&out)
}

/// The text of a message that tells a count and a scope: the count stands
/// between `head` and `middle`, the label between `middle` and `]`.
pub open spec fn count_message_text(
    head: Seq<char>,
    count: nat,
    middle: Seq<char>,
    label: Seq<char>,
) -> Seq<char> {
    head + decimal_digits(count) + middle + label + seq![']']
}

pub fn count_message(head: &str, count: usize, middle: &str, label: &str) -> (r: String)
    ensures
        r@ == count_message_text(head@, count as nat, middle@, label@),
{
    let mut out = to_chars(head);
    let digits = u64_to_chars(count as u64);
    append_chars(&mut out, &digits);
    let mid = to_chars(middle);
    append_chars(&mut out, &mid);
    let tail = to_chars(label);
    append_chars(&mut out, &tail);
    out.push(']');
    assert(out@ =~= count_message_text(head@, count as nat, middle@, label@));
    string_of(&out)
}

} // verus!
