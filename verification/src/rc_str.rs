use crate::error::BoundaryViolation;
use crate::span::Span;
use crate::traits::{IntoRc, RcStrExt, RcStringExt};
use crate::window::{lemma_split_admits, Window};
use std::rc::Rc;
use vstd::prelude::*;
use vstd::utf8::encode_utf8;

verus! {

/// A slice of a string that an `Rc<String>` owns.
///
/// It holds one handle to the owner, so the buffer lives as long as the
/// slice does, and the byte range that it addresses in the buffer. The range
/// lies within the buffer and begins and ends on character boundaries.
pub struct RcStr {
    rc: Rc<String>,
    span: Span,
}

impl RcStr {
    #[verifier::type_invariant]
    spec fn inv(&self) -> bool {
        self.span.on(encode_utf8(self.rc@)).wf()
    }

    /// The owner whose buffer the slice shares.
    pub fn owner(&self) -> (r: &Rc<String>)
        ensures
            encode_utf8(r@) == self.window().buffer,
            self.window().wf(),
    {
        proof {
            use_type_invariant(self);
        }
        &self.rc
    }

    /// The byte offset in the buffer at which the slice begins.
    pub fn offset(&self) -> (r: usize)
        ensures
            r == self.window().start,
    {
        self.span.start
    }

    /// The number of bytes addressed.
    pub fn len(&self) -> (r: usize)
        ensures
            r == self.window().len(),
    {
        proof {
            use_type_invariant(self);
        }
        self.span.len()
    }

    /// Whether the slice addresses no bytes.
    pub fn is_empty(&self) -> (r: bool)
        ensures
            r == (self.window().len() == 0),
    {
        proof {
            use_type_invariant(self);
        }
        self.span.len() == 0
    }

    /// The text addressed, borrowed for as long as the slice is.
    pub fn as_str(&self) -> (r: &str)
        ensures
            r@ == self@,
    {
        proof {
            use_type_invariant(self);
        }
        self.span.text(self.rc.as_str())
    }
}

impl View for RcStr {
    type V = Seq<char>;

    open spec fn view(&self) -> Seq<char> {
        self.window().text()
    }
}

impl Clone for RcStr {
    /// Another handle to the same buffer with the same range: the count of
    /// the owner rises by one and no character data is copied.
    fn clone(&self) -> (r: Self)
        ensures
            r == *self,
    {
        proof {
            use_type_invariant(self);
        }
        RcStr { rc: self.rc.clone(), span: self.span }
    }
}

impl core::ops::Deref for RcStr {
    type Target = str;

    fn deref(&self) -> (r: &str)
        ensures
            r@ == self@,
    {
        self.as_str()
    }
}

impl RcStringExt for Rc<String> {
    type RcSlice = RcStr;

    fn as_rc_slice(&self) -> (r: RcStr) {
        let span = Span::whole(self.as_str());
        RcStr { rc: self.clone(), span }
    }

    fn rc_slice_to(&self, to: usize) -> (r: Result<RcStr, BoundaryViolation>) {
        self.rc_slice(0, to)
    }

    fn rc_slice_from(&self, from: usize) -> (r: Result<RcStr, BoundaryViolation>) {
        let len = self.as_str().as_bytes().len();
        self.rc_slice(from, len)
    }

    fn rc_slice(&self, from: usize, to: usize) -> (r: Result<RcStr, BoundaryViolation>) {
        let whole = Span::whole(self.as_str());
        match whole.narrow(self.as_str(), from, to) {
            Ok(span) => Ok(RcStr { rc: self.clone(), span }),
            Err(e) => Err(e),
        }
    }

    fn rc_split_at(&self, at: usize) -> (r: Result<(RcStr, RcStr), BoundaryViolation>) {
        self.as_rc_slice().rc_split_at(at)
    }
}

impl RcStrExt for RcStr {
    type RcOwned = Rc<String>;

    closed spec fn window(&self) -> Window {
        self.span.on(encode_utf8(self.rc@))
    }

    fn to_rc_string(&self) -> (r: Rc<String>) {
        self.to_owned_string().rc()
    }

    fn to_owned_string(&self) -> (r: String) {
        self.as_str().to_owned()
    }

    fn as_rc_slice(&self) -> (r: RcStr) {
        proof {
            use_type_invariant(self);
        }
        self.clone()
    }

    fn rc_slice_to(&self, to: usize) -> (r: Result<RcStr, BoundaryViolation>) {
        self.rc_slice_at(0, to)
    }

    fn rc_slice_from(&self, from: usize) -> (r: Result<RcStr, BoundaryViolation>) {
        proof {
            use_type_invariant(self);
        }
        self.rc_slice_at(from, self.span.len())
    }

    fn rc_slice_at(&self, from: usize, to: usize) -> (r: Result<RcStr, BoundaryViolation>) {
        proof {
            use_type_invariant(self);
        }
        match self.span.narrow(self.rc.as_str(), from, to) {
            Ok(span) => Ok(RcStr { rc: self.rc.clone(), span }),
            Err(e) => Err(e),
        }
    }

    fn rc_split_at(&self, at: usize) -> (r: Result<(RcStr, RcStr), BoundaryViolation>) {
        proof {
            use_type_invariant(self);
            lemma_split_admits(self.window(), at as int);
        }
        match self.rc_slice_to(at) {
            Ok(head) => match self.rc_slice_from(at) {
                Ok(tail) => Ok((head, tail)),
                Err(e) => Err(e),
            },
            Err(e) => Err(e),
        }
    }
}

} // verus!
