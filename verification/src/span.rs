use crate::error::BoundaryViolation;
use crate::window::{lemma_boundary_in_window, lemma_narrow, lemma_window_valid, Window};
use vstd::prelude::*;
use vstd::string::StringSliceAdditionalSpecFns;
use vstd::utf8::{encode_utf8_decode_utf8, encode_utf8_valid_utf8, is_char_boundary_start_end_of_seq};

verus! {

/// The view descriptor of a slice: the byte range `start..end` of the buffer
/// that its owner holds. It is small, `Copy`, and never holds character data.
#[derive(Clone, Copy, Debug)]
pub(crate) struct Span {
    pub(crate) start: usize,
    pub(crate) end: usize,
}

impl Span {
    /// The window that this descriptor addresses in `buffer`.
    pub(crate) open spec fn on(self, buffer: Seq<u8>) -> Window {
        Window { buffer, start: self.start as int, end: self.end as int }
    }

    /// The descriptor of all of `s`.
    pub(crate) fn whole(s: &str) -> (r: Span)
        ensures
            r.on(s.spec_bytes()) == Window::whole(s.spec_bytes()),
            r.on(s.spec_bytes()).wf(),
    {
        proof {
            encode_utf8_valid_utf8(s@);
            is_char_boundary_start_end_of_seq(s.spec_bytes());
        }
        let bytes = s.as_bytes();
        Span { start: 0, end: bytes.len() }
    }

    /// Number of bytes addressed.
    pub(crate) fn len(&self) -> (r: usize)
        requires
            self.start <= self.end,
        ensures
            r == self.end - self.start,
    {
        self.end - self.start
    }

    /// The descriptor of `from..to`, counted from this descriptor's own
    /// start, or the fault if that range may not be sliced out of it.
    pub(crate) fn narrow(&self, s: &str, from: usize, to: usize) -> (r: Result<
        Span,
        BoundaryViolation,
    >)
        requires
            self.on(s.spec_bytes()).wf(),
        ensures
            r is Ok <==> self.on(s.spec_bytes()).admits(from as int, to as int),
            r matches Ok(span) ==> {
                &&& span.on(s.spec_bytes()) == self.on(s.spec_bytes()).narrow(from as int, to as int)
                &&& span.on(s.spec_bytes()).wf()
            },
    {
        let ghost w = self.on(s.spec_bytes());
        if from > to || to > self.end - self.start {
            return Err(BoundaryViolation);
        }
        proof {
            lemma_boundary_in_window(w, from as int);
            lemma_boundary_in_window(w, to as int);
        }
        if s.is_char_boundary(self.start + from) && s.is_char_boundary(self.start + to) {
            proof {
                lemma_narrow(w, from as int, to as int);
            }
            Ok(Span { start: self.start + from, end: self.start + to })
        } else {
            Err(BoundaryViolation)
        }
    }

    /// The text addressed in `s`, borrowed from it.
    pub(crate) fn text<'a>(&self, s: &'a str) -> (r: &'a str)
        requires
            self.on(s.spec_bytes()).wf(),
        ensures
            r.spec_bytes() == self.on(s.spec_bytes()).bytes(),
            r@ == self.on(s.spec_bytes()).text(),
    {
        let ghost w = self.on(s.spec_bytes());
        let ghost tail = Window { buffer: w.buffer, start: w.start, end: w.buffer.len() as int };
        proof {
            is_char_boundary_start_end_of_seq(w.buffer);
            lemma_window_valid(w);
            lemma_window_valid(tail);
            lemma_boundary_in_window(tail, w.len());
        }
        let (_, rest) = s.split_at(self.start);
        let (mid, _) = rest.split_at(self.end - self.start);
        proof {
            assert(mid.spec_bytes() =~= w.bytes());
            encode_utf8_decode_utf8(mid@);
        }
        mid
    }
}

} // verus!
