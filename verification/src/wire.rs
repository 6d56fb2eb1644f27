//! The wire format of a launch payload: one line of text, ended by a newline.
//!
//! A secondary instance sends its payload followed by the delimiter and
//! closes the connection. The primary instance takes what stands before the
//! first delimiter of what it received.

use crate::text::chars_of;
use vstd::prelude::*;
use vstd::string::*;

verus! {

/// The character that ends a payload on the wire. It is no part of the payload.
pub const DELIMITER: char = '\n';

/// What goes on the wire for `payload`: the payload, then the delimiter.
pub open spec fn framed(payload: Seq<char>) -> Seq<char> {
    payload.push(DELIMITER)
}

/// `text` holds no delimiter.
pub open spec fn single_line(text: Seq<char>) -> bool {
    forall|i: int| 0 <= i < text.len() ==> text[i] != DELIMITER
}

/// The first line of `text` ends before position `n`: no delimiter stands
/// before `n`, and one stands at `n` unless the text ends there.
pub open spec fn line_ends_at(text: Seq<char>, n: int) -> bool {
    &&& 0 <= n <= text.len()
    &&& single_line(text.take(n))
    &&& n < text.len() ==> text[n] == DELIMITER
}

/// The number of characters before the first delimiter of `text`, or the
/// length of `text` where it holds none.
pub open spec fn line_len(text: Seq<char>) -> nat
    decreases text.len(),
{
    if text.len() == 0 || text[0] == DELIMITER {
        0
    } else {
        1 + line_len(text.skip(1))
    }
}

/// The payload that `received` carries: what stands before its first
/// delimiter, or all of it where the sender closed without one.
pub open spec fn payload_of(received: Seq<char>) -> Seq<char> {
    received.take(line_len(received) as int)
}

/// The payload of a launch with the command line `args`: the first argument
/// after the program's name, or the empty text.
pub open spec fn launch_payload_of(args: Seq<String>) -> Seq<char> {
    if args.len() > 1 {
        args[1]@
    } else {
        Seq::empty()
    }
}

/// `line_len` names the place where the first line ends.
pub proof fn lemma_line_len_ends_line(text: Seq<char>)
    ensures
        line_ends_at(text, line_len(text) as int),
    decreases text.len(),
{
    if text.len() == 0 || text[0] == DELIMITER {
    } else {
        let rest = text.skip(1);
        lemma_line_len_ends_line(rest);
        let n = line_len(text) as int;
        assert forall|i: int| 0 <= i < n implies text.take(n)[i] != DELIMITER by {
            if i > 0 {
                assert(rest.take(n - 1)[i - 1] == text[i]);
            }
        }
    }
}

/// The first line ends in one place only.
pub proof fn lemma_line_end_is_unique(text: Seq<char>, n: int)
    requires
        line_ends_at(text, n),
    ensures
        n == line_len(text),
{
    lemma_line_len_ends_line(text);
    let m = line_len(text) as int;
    if n < m {
        assert(text.take(m)[n] == text[n]);
    } else if m < n {
        assert(text.take(n)[m] == text[m]);
    }
}

/// A payload that holds no delimiter comes out of its framed form exactly,
/// whatever follows it on the wire.
pub proof fn lemma_payload_fidelity(payload: Seq<char>, trailing: Seq<char>)
    requires
        single_line(payload),
    ensures
        payload_of(framed(payload) + trailing) == payload,
{
    lemma_line_end_is_unique(framed(payload) + trailing, payload.len() as int);
}

/// Only a payload that holds no delimiter comes out of its framed form
/// exactly: one that holds a delimiter is cut at it.
pub proof fn lemma_fidelity_needs_single_line(payload: Seq<char>)
    ensures
        payload_of(framed(payload)) == payload <==> single_line(payload),
{
    if single_line(payload) {
        lemma_payload_fidelity(payload, Seq::empty());
    } else {
        lemma_line_len_ends_line(framed(payload));
    }
}

/// What goes on the wire for `payload`.
pub fn frame(payload: &str) -> (message: String)
    ensures
        message@ == framed(payload@),
{
    let mut message = String::new();
    message.append(payload);
    proof {
        reveal_strlit("\n");
    }
    message.append("\n");
    message
}

/// The payload that `received` carries.
pub fn unframe(received: &str) -> (payload: String)
    ensures
        payload@ == payload_of(received@),
{
    let text = chars_of(received);
    let mut n: usize = 0;
    while n < text.len() && text[n] != DELIMITER
        invariant
            n <= text.len(),
            single_line(text@.take(n as int)),
        decreases text.len() - n,
    {
        n += 1;
    }
    proof {
        lemma_line_end_is_unique(text@, n as int);
    }
    received.substring_char(0, n).to_owned()
}

/// The payload of a launch with the command line `args`.
pub fn launch_payload(args: &Vec<String>) -> (payload: String)
    ensures
        payload@ == launch_payload_of(args@),
{
    if args.len() > 1 {
        args[1].clone()
    } else {
        String::new()
    }
}

} // verus!
