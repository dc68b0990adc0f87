use crate::error::BoundaryViolation;
use crate::window::Window;
use std::rc::Rc;
use std::sync::Arc;
use vstd::prelude::*;
use vstd::utf8::encode_utf8;

verus! {

/// Adoption of an owned value by a shared, reference-counted owner.
///
/// Both operations consume the value and keep its content as it is; they
/// differ only in how the owner counts its holders.
pub trait IntoRc: Sized + View {
    /// The owner whose count is not synchronised between threads.
    type Rc: View<V = Self::V>;

    /// The owner whose count is atomic.
    type Arc: View<V = Self::V>;

    /// Hands the value to an owner for use within one thread.
    fn rc(self) -> (r: Self::Rc)
        ensures
            r@ == self@,
    ;

    /// Hands the value to an owner that may be shared between threads.
    fn arc(self) -> (r: Self::Arc)
        ensures
            r@ == self@,
    ;
}

impl IntoRc for String {
    type Rc = Rc<String>;

    type Arc = Arc<String>;

    fn rc(self) -> (r: Rc<String>) {
        Rc::new(self)
    }

    fn arc(self) -> (r: Arc<String>) {
        Arc::new(self)
    }
}

/// Slicing of a shared string owner. Every slice that comes out holds the
/// owner's buffer alive and addresses a byte range of it; no character data
/// is copied.
///
/// Offsets are byte offsets into the buffer. A range is admitted when
/// `from <= to <= len` and both ends fall on character boundaries; every
/// other range is answered with [`BoundaryViolation`].
pub trait RcStringExt: View<V = Seq<char>> {
    /// The slice type that shares this owner.
    type RcSlice: RcStrExt;

    /// The slice over the whole buffer.
    fn as_rc_slice(&self) -> (r: Self::RcSlice)
        ensures
            r.window() == Window::whole(encode_utf8(self@)),
            r.window().wf(),
    ;

    /// The slice over bytes `0..to`.
    fn rc_slice_to(&self, to: usize) -> (r: Result<Self::RcSlice, BoundaryViolation>)
        ensures
            r is Ok <==> Window::whole(encode_utf8(self@)).admits(0, to as int),
            r matches Ok(s) ==> {
                &&& s.window() == Window::whole(encode_utf8(self@)).prefix(to as int)
                &&& s.window().wf()
            },
    ;

    /// The slice over bytes `from..len`.
    fn rc_slice_from(&self, from: usize) -> (r: Result<Self::RcSlice, BoundaryViolation>)
        ensures
            r is Ok <==> Window::whole(encode_utf8(self@)).admits(
                from as int,
                encode_utf8(self@).len() as int,
            ),
            r matches Ok(s) ==> {
                &&& s.window() == Window::whole(encode_utf8(self@)).suffix(from as int)
                &&& s.window().wf()
            },
    ;

    /// The slice over bytes `from..to`.
    fn rc_slice(&self, from: usize, to: usize) -> (r: Result<Self::RcSlice, BoundaryViolation>)
        ensures
            r is Ok <==> Window::whole(encode_utf8(self@)).admits(from as int, to as int),
            r matches Ok(s) ==> {
                &&& s.window() == Window::whole(encode_utf8(self@)).narrow(from as int, to as int)
                &&& s.window().wf()
            },
    ;

    /// The pair of slices over bytes `0..at` and `at..len`: together they
    /// cover the buffer with no overlap and no gap.
    fn rc_split_at(&self, at: usize) -> (r: Result<
        (Self::RcSlice, Self::RcSlice),
        BoundaryViolation,
    >)
        ensures
            r is Ok <==> Window::whole(encode_utf8(self@)).admits(0, at as int),
            r matches Ok(pair) ==> {
                &&& pair.0.window() == Window::whole(encode_utf8(self@)).prefix(at as int)
                &&& pair.1.window() == Window::whole(encode_utf8(self@)).suffix(at as int)
                &&& pair.0.window().wf()
                &&& pair.1.window().wf()
            },
    ;
}

/// Slicing of a slice, and its way back to owned text. Offsets count from
/// the slice's own start; what comes out shares the same buffer as the slice
/// it was cut from.
pub trait RcStrExt: Sized {
    /// The owner type that a slice can be handed back to.
    type RcOwned: View<V = Seq<char>>;

    /// The buffer shared and the byte range addressed.
    spec fn window(&self) -> Window;

    /// A fresh owner holding a copy of exactly the text addressed.
    fn to_rc_string(&self) -> (r: Self::RcOwned)
        ensures
            r@ == self.window().text(),
    ;

    /// A fresh owned string holding a copy of exactly the text addressed.
    fn to_owned_string(&self) -> (r: String)
        ensures
            r@ == self.window().text(),
    ;

    /// The slice over everything this slice addresses: the same slice again.
    fn as_rc_slice(&self) -> (r: Self)
        ensures
            r.window() == self.window().full(),
            r.window() == self.window(),
            r.window().wf(),
    ;

    /// The slice over bytes `0..to` of this slice.
    fn rc_slice_to(&self, to: usize) -> (r: Result<Self, BoundaryViolation>)
        ensures
            r is Ok <==> self.window().admits(0, to as int),
            r matches Ok(s) ==> s.window() == self.window().prefix(to as int) && s.window().wf(),
    ;

    /// The slice over bytes `from..len` of this slice.
    fn rc_slice_from(&self, from: usize) -> (r: Result<Self, BoundaryViolation>)
        ensures
            r is Ok <==> self.window().admits(from as int, self.window().len()),
            r matches Ok(s) ==> s.window() == self.window().suffix(from as int) && s.window().wf(),
    ;

    /// The slice over bytes `from..to` of this slice.
    fn rc_slice_at(&self, from: usize, to: usize) -> (r: Result<Self, BoundaryViolation>)
        ensures
            r is Ok <==> self.window().admits(from as int, to as int),
            r matches Ok(s) ==> s.window() == self.window().narrow(from as int, to as int)
                && s.window().wf(),
    ;

    /// The pair of slices over bytes `0..at` and `at..len` of this slice.
    fn rc_split_at(&self, at: usize) -> (r: Result<(Self, Self), BoundaryViolation>)
        ensures
            r is Ok <==> self.window().admits(0, at as int),
            r matches Ok(pair) ==> {
                &&& pair.0.window() == self.window().prefix(at as int)
                &&& pair.1.window() == self.window().suffix(at as int)
                &&& pair.0.window().wf()
                &&& pair.1.window().wf()
            },
    ;
}

} // verus!
