use crate::window::{lemma_boundary_in_window, lemma_narrow, lemma_window_valid, Window};
use vstd::prelude::*;
use vstd::utf8::{
    decode_utf8_encode_utf8, decode_utf8_split, encode_utf8, encode_utf8_decode_utf8,
    encode_utf8_valid_utf8, is_char_boundary_iff_not_is_continuation_byte,
    is_char_boundary_start_end_of_seq, is_continuation_byte,
};

verus! {

/// A range is admitted by a well-formed window exactly when it is ordered,
/// ends within the window, and neither end points at a continuation byte,
/// that is, into the middle of a multi-byte character.
pub proof fn law_admits_iff(w: Window, from: int, to: int)
    requires
        w.wf(),
    ensures
        w.admits(from, to) <==> {
            &&& 0 <= from <= to <= w.len()
            &&& (from < w.len() ==> !is_continuation_byte(w.bytes()[from]))
            &&& (to < w.len() ==> !is_continuation_byte(w.bytes()[to]))
        },
{
    lemma_window_valid(w);
    if 0 <= from < w.len() {
        is_char_boundary_iff_not_is_continuation_byte(w.bytes(), from);
    }
    if 0 <= to < w.len() {
        is_char_boundary_iff_not_is_continuation_byte(w.bytes(), to);
    }
}

/// No range is admitted that ends before it starts, that ends beyond the
/// window, or one of whose ends lies inside a multi-byte character.
pub proof fn law_faults(w: Window, from: int, to: int)
    requires
        w.wf(),
    ensures
        to < from ==> !w.admits(from, to),
        to > w.len() ==> !w.admits(from, to),
        0 <= from < w.len() && is_continuation_byte(w.bytes()[from]) ==> !w.admits(from, to),
        0 <= to < w.len() && is_continuation_byte(w.bytes()[to]) ==> !w.admits(from, to),
{
    law_admits_iff(w, from, to);
}

/// The whole of a window, and its empty ends, can always be sliced out.
pub proof fn law_ends_admitted(w: Window)
    requires
        w.wf(),
    ensures
        w.admits(0, w.len()),
        w.admits(0, 0),
        w.admits(w.len(), w.len()),
{
    lemma_window_valid(w);
}

/// Splitting a window at an admitted offset gives two windows that meet at
/// that offset and nowhere else, and whose bytes, and whose characters,
/// joined in order are those of the window.
pub proof fn law_split_covers(w: Window, mid: int)
    requires
        w.wf(),
        w.admits(0, mid),
    ensures
        w.prefix(mid).wf(),
        w.suffix(mid).wf(),
        w.prefix(mid).start == w.start,
        w.prefix(mid).end == w.suffix(mid).start,
        w.suffix(mid).end == w.end,
        w.prefix(mid).len() + w.suffix(mid).len() == w.len(),
        w.prefix(mid).bytes() + w.suffix(mid).bytes() == w.bytes(),
        w.prefix(mid).text() + w.suffix(mid).text() == w.text(),
{
    lemma_window_valid(w);
    lemma_narrow(w, 0, mid);
    lemma_narrow(w, mid, w.len());
    assert(w.prefix(mid).bytes() + w.suffix(mid).bytes() =~= w.bytes());
    decode_utf8_split(w.bytes(), mid);
}

/// Slicing the whole of a window gives the window itself.
pub proof fn law_full_is_identity(w: Window)
    ensures
        w.full() == w,
        w.full().bytes() == w.bytes(),
        w.full().text() == w.text(),
{
}

/// The text of a well-formed window encodes to exactly the bytes addressed.
pub proof fn law_text_encodes_bytes(w: Window)
    requires
        w.wf(),
    ensures
        encode_utf8(w.text()) == w.bytes(),
{
    lemma_window_valid(w);
    decode_utf8_encode_utf8(w.bytes());
}

/// Copying the text of a window out and adopting the copy gives an owner
/// whose whole window is well-formed, starts at zero, and holds the bytes and
/// the characters that the window addressed.
pub proof fn law_round_trip(w: Window)
    requires
        w.wf(),
    ensures
        Window::whole(encode_utf8(w.text())).wf(),
        Window::whole(encode_utf8(w.text())).start == 0,
        Window::whole(encode_utf8(w.text())).len() == w.len(),
        Window::whole(encode_utf8(w.text())).bytes() == w.bytes(),
        Window::whole(encode_utf8(w.text())).text() == w.text(),
{
    law_text_encodes_bytes(w);
    law_whole(w.text());
}

/// The whole window of an owner is well-formed and addresses all of the
/// owner's text.
pub proof fn law_whole(content: Seq<char>)
    ensures
        Window::whole(encode_utf8(content)).wf(),
        Window::whole(encode_utf8(content)).bytes() == encode_utf8(content),
        Window::whole(encode_utf8(content)).text() == content,
{
    let buffer = encode_utf8(content);
    encode_utf8_valid_utf8(content);
    is_char_boundary_start_end_of_seq(buffer);
    assert(buffer.subrange(0, buffer.len() as int) =~= buffer);
    encode_utf8_decode_utf8(content);
}

/// Slicing twice is slicing once: a range of a range of a window is the
/// range of the window at the summed offsets, in the same buffer.
pub proof fn law_narrow_composes(w: Window, a: int, b: int, c: int, d: int)
    requires
        w.wf(),
        w.admits(a, b),
        w.narrow(a, b).admits(c, d),
    ensures
        w.admits(a + c, a + d),
        w.narrow(a, b).narrow(c, d) == w.narrow(a + c, a + d),
        w.narrow(a, b).narrow(c, d).buffer == w.buffer,
        w.narrow(a, b).narrow(c, d).bytes() == w.bytes().subrange(a + c, a + d),
{
    lemma_narrow(w, a, b);
    let inner = w.narrow(a, b);
    lemma_narrow(inner, c, d);
    lemma_boundary_in_window(inner, c);
    lemma_boundary_in_window(inner, d);
    lemma_boundary_in_window(w, a + c);
    lemma_boundary_in_window(w, a + d);
    lemma_narrow(w, a + c, a + d);
}

} // verus!
