use vstd::prelude::*;
use vstd::utf8::{
    decode_utf8, is_char_boundary, is_char_boundary_iff_not_is_continuation_byte,
    is_char_boundary_start_end_of_seq, valid_utf8, valid_utf8_split,
};

verus! {

/// `from..to` is a range of `bytes` whose two ends both fall on character
/// boundaries of the UTF-8 text that `bytes` encodes.
pub open spec fn range_ok(bytes: Seq<u8>, from: int, to: int) -> bool {
    &&& 0 <= from <= to <= bytes.len()
    &&& is_char_boundary(bytes, from)
    &&& is_char_boundary(bytes, to)
}

/// The mathematical value of a slice: the whole buffer it shares and the byte
/// range `start..end` of that buffer which it addresses.
pub struct Window {
    pub buffer: Seq<u8>,
    pub start: int,
    pub end: int,
}

impl Window {
    /// The window over all of `buffer`.
    pub open spec fn whole(buffer: Seq<u8>) -> Window {
        Window { buffer, start: 0, end: buffer.len() as int }
    }

    /// The buffer is UTF-8 text and the window lies within it, on character
    /// boundaries at both ends.
    pub open spec fn wf(self) -> bool {
        &&& valid_utf8(self.buffer)
        &&& range_ok(self.buffer, self.start, self.end)
    }

    /// Number of bytes addressed.
    pub open spec fn len(self) -> int {
        self.end - self.start
    }

    /// The bytes addressed.
    pub open spec fn bytes(self) -> Seq<u8> {
        self.buffer.subrange(self.start, self.end)
    }

    /// The characters addressed.
    pub open spec fn text(self) -> Seq<char> {
        decode_utf8(self.bytes())
    }

    /// Offsets `from..to`, counted from the window's own start, name a range
    /// that may be sliced out of it.
    pub open spec fn admits(self, from: int, to: int) -> bool {
        range_ok(self.bytes(), from, to)
    }

    /// The window over `from..to` of this window, in the same buffer.
    pub open spec fn narrow(self, from: int, to: int) -> Window {
        Window { buffer: self.buffer, start: self.start + from, end: self.start + to }
    }

    /// The window over everything this window addresses.
    pub open spec fn full(self) -> Window {
        self.narrow(0, self.len())
    }

    /// The window over the first `to` bytes.
    pub open spec fn prefix(self, to: int) -> Window {
        self.narrow(0, to)
    }

    /// The window over the bytes from `from` on.
    pub open spec fn suffix(self, from: int) -> Window {
        self.narrow(from, self.len())
    }
}

/// The bytes of a well-formed window are UTF-8 text themselves.
pub proof fn lemma_window_valid(w: Window)
    requires
        w.wf(),
    ensures
        valid_utf8(w.bytes()),
        is_char_boundary(w.bytes(), 0),
        is_char_boundary(w.bytes(), w.len()),
{
    let n = w.buffer.len() as int;
    let tail = w.buffer.subrange(w.start, n);
    valid_utf8_split(w.buffer, w.start);
    assert(is_char_boundary(tail, w.len())) by {
        if w.end < n {
            is_char_boundary_iff_not_is_continuation_byte(w.buffer, w.end);
            is_char_boundary_iff_not_is_continuation_byte(tail, w.len());
            assert(tail[w.len()] == w.buffer[w.end]);
        } else {
            is_char_boundary_start_end_of_seq(tail);
        }
    }
    valid_utf8_split(tail, w.len());
    assert(tail.subrange(0, w.len()) =~= w.bytes());
    is_char_boundary_start_end_of_seq(w.bytes());
}

/// Inside a well-formed window, an offset is a character boundary of the
/// window's text exactly when it is one of the whole buffer.
pub proof fn lemma_boundary_in_window(w: Window, i: int)
    requires
        w.wf(),
        0 <= i <= w.len(),
    ensures
        is_char_boundary(w.bytes(), i) <==> is_char_boundary(w.buffer, w.start + i),
{
    lemma_window_valid(w);
    if i < w.len() {
        is_char_boundary_iff_not_is_continuation_byte(w.bytes(), i);
        is_char_boundary_iff_not_is_continuation_byte(w.buffer, w.start + i);
        assert(w.bytes()[i] == w.buffer[w.start + i]);
    }
}

/// Slicing an admitted range out of a well-formed window gives a well-formed
/// window over exactly that range of the bytes.
pub proof fn lemma_narrow(w: Window, from: int, to: int)
    requires
        w.wf(),
        w.admits(from, to),
    ensures
        w.narrow(from, to).wf(),
        w.narrow(from, to).bytes() == w.bytes().subrange(from, to),
        w.narrow(from, to).len() == to - from,
{
    lemma_boundary_in_window(w, from);
    lemma_boundary_in_window(w, to);
    assert(w.narrow(from, to).bytes() =~= w.bytes().subrange(from, to));
}

/// A well-formed window can be cut before an offset exactly when it can be
/// cut after it.
pub proof fn lemma_split_admits(w: Window, at: int)
    requires
        w.wf(),
    ensures
        w.admits(0, at) <==> w.admits(at, w.len()),
{
    lemma_window_valid(w);
}

} // verus!
