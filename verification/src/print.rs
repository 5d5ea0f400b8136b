//! Printing expanded text: through an instance's output, or into a sized buffer.

use vstd::prelude::*;
use crate::object::{out_fn, Lwprintf};
use crate::output::CustomOutPut;

verus! {

/// Asks for a buffer write without a limit of its own: as a capacity it
/// stands for the largest size there is, so that the buffer's length decides.
pub const SIZE_MAX: i32 = -1;

/// The character codes that an output is handed for `text`: for each byte
/// its value, from 0 to 255, in the order of the bytes.
pub open spec fn char_codes(text: Seq<u8>) -> Seq<i32> {
    text.map_values(|b: u8| b as i32)
}

/// The bytes of a buffer of `buf_len` bytes that a write limited to `n` may use.
pub open spec fn capacity(n: nat, buf_len: nat) -> nat {
    if n < buf_len {
        n
    } else {
        buf_len
    }
}

/// How many bytes of a text of `text_len` bytes are stored where `cap` bytes
/// may be used: all of them if a terminator still fits behind them, else one
/// less than `cap`.
pub open spec fn stored_len(cap: nat, text_len: nat) -> nat {
    if cap == 0 {
        0
    } else if text_len < cap {
        text_len
    } else {
        (cap - 1) as nat
    }
}

/// What a buffer holds after `text` was written into its first `cap` bytes:
/// the stored part of the text, a zero byte, and behind that what was there
/// before. Where no byte may be used, nothing is written.
pub open spec fn buffer_after(before: Seq<u8>, cap: nat, text: Seq<u8>) -> Seq<u8>
    recommends
        cap <= before.len(),
{
    if cap == 0 {
        before
    } else {
        let kept = stored_len(cap, text.len()) as int;
        text.take(kept).push(0u8) + before.skip(kept + 1)
    }
}

/// The string that a buffer holds: its bytes before the first zero byte, or
/// all of them where none is zero.
pub open spec fn c_string(buf: Seq<u8>) -> Seq<u8>
    decreases buf.len(),
{
    if buf.len() == 0 || buf[0] == 0 {
        Seq::empty()
    } else {
        seq![buf[0]] + c_string(buf.skip(1))
    }
}

/// What printing `text` through an instance does to it: the instance stays
/// bound, and its output has received what it had before and then the
/// character codes of `text`, in order.
pub open spec fn printed<T: CustomOutPut>(
    before: Lwprintf<T>,
    after: Lwprintf<T>,
    text: Seq<u8>,
) -> bool {
    &&& before.is_initialized()
    &&& after.is_initialized()
    &&& after.received() == before.received() + char_codes(text)
}

/// Prints `text`, the expansion of one format operation, through the output
/// of `lwobj`: every byte in order, one call of the output each. Returns the
/// number of characters printed.
pub fn lwprintf_vprintf_ex_rust<T: CustomOutPut>(lwobj: &mut Lwprintf<T>, text: &[u8]) -> (count: i32)
    requires
        old(lwobj).is_initialized(),
        text@.len() <= i32::MAX,
    ensures
        count == text@.len(),
        printed(*old(lwobj), *final(lwobj), text@),
{
    let mut i: usize = 0;
    while i < text.len()
        invariant
            i <= text@.len(),
            lwobj.is_initialized(),
            lwobj.received() == old(lwobj).received() + char_codes(text@.take(i as int)),
        decreases text@.len() - i,
    {
        out_fn(text[i] as i32, lwobj);
        assert(text@.take(i + 1) == text@.take(i as int).push(text@[i as int]));
        i += 1;
    }
    assert(text@.take(i as int) == text@);
    i as i32
}

/// Writes `text`, the expansion of one format operation, into `s` as a
/// zero-terminated string that uses at most `n` bytes of it, and returns the
/// length of the whole text, whether or not all of it was stored. The output
/// of `lwobj` is not involved.
#[allow(unused_variables)]
pub fn lwprintf_vsnprintf_ex_rust<T: CustomOutPut>(
    lwobj: &Lwprintf<T>,
    s: &mut [u8],
    n: usize,
    text: &[u8],
) -> (count: i32)
    requires
        lwobj.is_initialized(),
        text@.len() <= i32::MAX,
    ensures
        count == text@.len(),
        final(s)@ == buffer_after(old(s)@, capacity(n as nat, old(s)@.len()), text@),
{
    let cap: usize = if n < s.len() { n } else { s.len() };
    if cap > 0 {
        let kept: usize = if text.len() < cap { text.len() } else { cap - 1 };
        let mut i: usize = 0;
        while i < kept
            invariant
                i <= kept,
                kept < s@.len(),
                kept <= text@.len(),
                s@.len() == old(s)@.len(),
                s@ == text@.take(i as int) + old(s)@.skip(i as int),
            decreases kept - i,
        {
            s[i] = text[i];
            i += 1;
        }
        s[kept] = 0;
    }
    text.len() as i32
}

/// A zero byte behind bytes that are not zero ends the string there, whatever
/// follows it.
proof fn lemma_c_string_ends_at_zero(head: Seq<u8>, tail: Seq<u8>)
    requires
        forall|i: int| 0 <= i < head.len() ==> head[i] != 0,
    ensures
        c_string(head.push(0u8) + tail) == head,
    decreases head.len(),
{
    let buf = head.push(0u8) + tail;
    if head.len() == 0 {
        assert(buf[0] == 0);
    } else {
        assert(buf[0] == head[0]);
        assert(buf.skip(1) == head.skip(1).push(0u8) + tail);
        lemma_c_string_ends_at_zero(head.skip(1), tail);
        assert(seq![head[0]] + head.skip(1) == head);
    }
}

/// A sized write leaves in the buffer the printed output, cut to what fits.
///
/// The buffer keeps its length. Where the write may use no byte of it, it is
/// left as it was. Else it starts with the first `kept` bytes of `text`,
/// followed by a zero byte, where `kept` is the length of `text` or one less
/// than the capacity, whichever is smaller; behind the zero byte it holds
/// what it held before, so that no more than `n` bytes are written, the zero
/// byte among them. If no kept byte is zero, the string in the buffer is
/// that start of `text`, and its character codes are the first `kept` codes
/// that printing `text` hands to an output; with a capacity above the length
/// of `text` the string is all of `text`.
pub proof fn lemma_buffer_holds_cut_output(before: Seq<u8>, n: nat, text: Seq<u8>)
    ensures
        ({
            let cap = capacity(n, before.len());
            let kept = stored_len(cap, text.len()) as int;
            let after = buffer_after(before, cap, text);
            &&& after.len() == before.len()
            &&& cap == 0 ==> after == before
            &&& cap > 0 ==> {
                &&& kept == if text.len() < cap { text.len() as int } else { cap - 1 }
                &&& kept < cap <= n
                &&& after.take(kept) == text.take(kept)
                &&& after[kept] == 0
                &&& after.skip(kept + 1) == before.skip(kept + 1)
                &&& (forall|i: int| 0 <= i < kept ==> text[i] != 0) ==> {
                    &&& c_string(after) == text.take(kept)
                    &&& char_codes(c_string(after)) == char_codes(text).take(kept)
                    &&& text.len() < cap ==> c_string(after) == text
                }
            }
        }),
{
    let cap = capacity(n, before.len());
    if cap > 0 {
        let kept = stored_len(cap, text.len()) as int;
        let after = buffer_after(before, cap, text);
        let head = text.take(kept);
        let tail = before.skip(kept + 1);
        assert(after == head.push(0u8) + tail);
        assert(after.take(kept) == head);
        assert(after.skip(kept + 1) == tail);
        if forall|i: int| 0 <= i < kept ==> text[i] != 0 {
            lemma_c_string_ends_at_zero(head, tail);
            assert(char_codes(head) == char_codes(text).take(kept));
            if text.len() < cap {
                assert(head == text);
            }
        }
    }
}

/// One printing call in a system of two instances: the first instance prints
/// `text` if `by_first` holds, else the second does, and the instance that
/// does not print is as it was.
pub open spec fn printed_by_one<A: CustomOutPut, B: CustomOutPut>(
    before: (Lwprintf<A>, Lwprintf<B>),
    after: (Lwprintf<A>, Lwprintf<B>),
    by_first: bool,
    text: Seq<u8>,
) -> bool {
    if by_first {
        printed(before.0, after.0, text) && after.1 == before.1
    } else {
        printed(before.1, after.1, text) && after.0 == before.0
    }
}

/// The texts of `calls` that were printed by the first instance (`by_first`)
/// or by the second, one behind the other in the order of the calls.
pub open spec fn texts_of(calls: Seq<(bool, Seq<u8>)>, by_first: bool) -> Seq<u8>
    decreases calls.len(),
{
    if calls.len() == 0 {
        Seq::empty()
    } else if calls.last().0 == by_first {
        texts_of(calls.drop_last(), by_first) + calls.last().1
    } else {
        texts_of(calls.drop_last(), by_first)
    }
}

/// The codes of two texts in a row are the codes of the first, then those of
/// the second.
proof fn lemma_char_codes_of_both(first: Seq<u8>, second: Seq<u8>)
    ensures
        char_codes(first + second) == char_codes(first) + char_codes(second),
{
}

/// Output through one instance never reaches the output of another.
///
/// Let two instances print in any interleaving: `calls` says for each call
/// which instance printed and what, and `states` holds the two instances
/// before the first call and after each call. Then the output of each
/// instance has in the end received what it had at the start and then the
/// character codes of its own texts, in the order of its calls, and no code
/// of a text that the other instance printed.
pub proof fn lemma_outputs_stay_apart<A: CustomOutPut, B: CustomOutPut>(
    states: Seq<(Lwprintf<A>, Lwprintf<B>)>,
    calls: Seq<(bool, Seq<u8>)>,
)
    requires
        states.len() == calls.len() + 1,
        forall|i: int|
            0 <= i < calls.len() ==> printed_by_one(
                states[i],
                states[i + 1],
                (#[trigger] calls[i]).0,
                calls[i].1,
            ),
    ensures
        states.last().0.received() == states[0].0.received() + char_codes(texts_of(calls, true)),
        states.last().1.received() == states[0].1.received() + char_codes(texts_of(calls, false)),
    decreases calls.len(),
{
    if calls.len() > 0 {
        let last = calls.len() - 1;
        assert(states.drop_last().last() == states[last]);
        assert(states.drop_last()[0] == states[0]);
        assert forall|i: int| 0 <= i < calls.drop_last().len() implies printed_by_one(
            states.drop_last()[i],
            states.drop_last()[i + 1],
            (#[trigger] calls.drop_last()[i]).0,
            calls.drop_last()[i].1,
        ) by {
            assert(calls.drop_last()[i] == calls[i]);
        }
        lemma_outputs_stay_apart(states.drop_last(), calls.drop_last());
        assert(printed_by_one(states[last], states[last + 1], calls[last].0, calls[last].1));
        lemma_char_codes_of_both(texts_of(calls.drop_last(), true), calls[last].1);
        lemma_char_codes_of_both(texts_of(calls.drop_last(), false), calls[last].1);
    }
}

} // verus!
