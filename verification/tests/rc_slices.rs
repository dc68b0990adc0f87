use rcstring::{BoundaryViolation, IntoRc, RcStr, RcStrExt, RcStringExt};
use std::rc::Rc;

fn owner_of(text: &str) -> Rc<String> {
    String::from(text).rc()
}

#[test]
fn adoption_keeps_content_and_buffer() {
    let s = String::from("héllo wörld");
    let ptr = s.as_ptr();
    let o = s.rc();
    assert_eq!(o.as_str(), "héllo wörld");
    assert_eq!(o.as_ptr(), ptr);
    assert_eq!(Rc::strong_count(&o), 1);
}

#[test]
fn whole_slice_addresses_everything() {
    let o = owner_of("héllo");
    let s = o.as_rc_slice();
    assert_eq!(&*s, "héllo");
    assert_eq!(s.offset(), 0);
    assert_eq!(s.len(), 6);
    assert!(!s.is_empty());
    assert_eq!(s.as_str().as_ptr(), o.as_ptr());
}

#[test]
fn multibyte_scenario() {
    let o = owner_of("héllo");
    assert_eq!(o.len(), 6);
    let h = o.rc_slice_to(1).ok().expect("offset 1 is a boundary");
    assert_eq!(&*h, "h");
    assert_eq!(o.rc_slice_to(2).err(), Some(BoundaryViolation));
    let llo = o.rc_slice(3, 6).ok().expect("3..6 is a valid range");
    assert_eq!(&*llo, "llo");
    assert_eq!(llo.offset(), 3);
    assert_eq!(llo.len(), 3);
}

#[test]
fn split_then_suffix_scenario() {
    let o = owner_of("abcdef");
    let (a, b) = o.rc_split_at(3).ok().expect("3 is a boundary");
    assert_eq!(&*a, "abc");
    assert_eq!(&*b, "def");
    assert_eq!(Rc::strong_count(&o), 3);
    let bc = a.rc_slice_from(1).ok().expect("1 is a boundary");
    let ef = b.rc_slice_from(1).ok().expect("1 is a boundary");
    assert_eq!(&*bc, "bc");
    assert_eq!(&*ef, "ef");
    assert_eq!(Rc::strong_count(&o), 5);
    assert!(Rc::ptr_eq(bc.owner(), &o));
    assert!(Rc::ptr_eq(ef.owner(), &o));
    assert_eq!(ef.offset(), 4);
    drop(a);
    drop(b);
    assert_eq!(Rc::strong_count(&o), 3);
    drop(o);
    assert_eq!(&*bc, "bc");
    assert_eq!(&*ef, "ef");
    assert_eq!(Rc::strong_count(bc.owner()), 2);
}

#[test]
fn split_covers_without_overlap_or_gap() {
    let text = "aé€😀z";
    let o = owner_of(text);
    let mut boundaries = 0;
    for mid in 0..=text.len() + 2 {
        match o.rc_split_at(mid) {
            Ok((a, b)) => {
                boundaries += 1;
                assert!(text.is_char_boundary(mid));
                assert_eq!(a.offset(), 0);
                assert_eq!(a.len(), mid);
                assert_eq!(b.offset(), mid);
                assert_eq!(a.len() + b.len(), text.len());
                assert_eq!(format!("{}{}", &*a, &*b), text);
            }
            Err(e) => {
                assert_eq!(e, BoundaryViolation);
                assert!(mid > text.len() || !text.is_char_boundary(mid));
            }
        }
    }
    assert_eq!(boundaries, 6);
}

#[test]
fn split_at_the_ends() {
    let o = owner_of("abc");
    let (a, b) = o.rc_split_at(0).ok().expect("0 is a boundary");
    assert_eq!(&*a, "");
    assert!(a.is_empty());
    assert_eq!(&*b, "abc");
    let (a, b) = o.rc_split_at(3).ok().expect("the end is a boundary");
    assert_eq!(&*a, "abc");
    assert_eq!(&*b, "");
    assert_eq!(b.offset(), 3);
    assert_eq!(o.rc_split_at(4).err(), Some(BoundaryViolation));
}

#[test]
fn whole_slice_of_a_slice_is_the_slice() {
    let o = owner_of("héllo wörld");
    let s = o.rc_slice(1, 7).ok().expect("1..7 is a valid range");
    let f = s.as_rc_slice();
    assert_eq!(&*f, &*s);
    assert_eq!(f.offset(), s.offset());
    assert_eq!(f.len(), s.len());
    assert_eq!(f.as_str().as_ptr(), s.as_str().as_ptr());
    assert!(Rc::ptr_eq(f.owner(), s.owner()));
}

#[test]
fn round_trip_through_owned_string() {
    let o = owner_of("héllo wörld");
    let s = o.rc_slice(1, 7).ok().expect("1..7 is a valid range");
    assert_eq!(&*s, "éllo ");
    let owned: String = s.to_owned_string();
    assert_eq!(owned, "éllo ");
    assert_ne!(owned.as_ptr(), s.as_str().as_ptr());
    let again = owned.rc();
    assert_eq!(&*again.as_rc_slice(), &*s);
    let direct = s.to_rc_string();
    assert_eq!(direct.as_str(), "éllo ");
    assert!(!Rc::ptr_eq(&direct, &o));
    assert_eq!(Rc::strong_count(&direct), 1);
    assert_eq!(&*direct.as_rc_slice(), &*s);
}

#[test]
fn owned_copy_is_independent() {
    let o = owner_of("abcdef");
    let s = o.rc_slice(2, 4).ok().expect("2..4 is a valid range");
    let mut owned = s.to_owned_string();
    owned.push_str("!!");
    assert_eq!(owned, "cd!!");
    assert_eq!(&*s, "cd");
    assert_eq!(o.as_str(), "abcdef");
    assert_eq!(Rc::strong_count(&o), 2);
}

#[test]
fn clone_shares_the_buffer() {
    let o = owner_of("héllo");
    let before = o.as_ptr();
    let o2 = o.clone();
    assert_eq!(o2.as_ptr(), before);
    assert_eq!(o.as_ptr(), before);
    assert!(Rc::ptr_eq(&o, &o2));
    let s = o.rc_slice(1, 3).ok().expect("1..3 is a valid range");
    let p = s.as_str().as_ptr();
    let count = Rc::strong_count(&o);
    let c = s.clone();
    assert_eq!(Rc::strong_count(&o), count + 1);
    assert_eq!(&*c, "é");
    assert_eq!(&*s, "é");
    assert_eq!(c.as_str().as_ptr(), p);
    assert_eq!(s.as_str().as_ptr(), p);
    assert_eq!(p as usize, before as usize + 1);
    assert_eq!(c.offset(), s.offset());
    assert_eq!(c.len(), s.len());
    assert!(Rc::ptr_eq(c.owner(), s.owner()));
}

#[test]
fn buffer_lives_until_the_last_handle_goes() {
    let o = owner_of("abcdef");
    let watch = Rc::downgrade(&o);
    let s = o.rc_slice(1, 5).ok().expect("1..5 is a valid range");
    let t = s.rc_slice_to(2).ok().expect("2 is a boundary");
    let c = t.clone();
    assert_eq!(watch.strong_count(), 4);
    drop(o);
    assert!(watch.upgrade().is_some());
    assert_eq!(watch.strong_count(), 3);
    drop(s);
    assert_eq!(&*t, "bc");
    drop(t);
    assert_eq!(watch.strong_count(), 1);
    assert_eq!(&*c, "bc");
    drop(c);
    assert_eq!(watch.strong_count(), 0);
    assert!(watch.upgrade().is_none());
}

#[test]
fn failed_slicing_takes_no_handle() {
    let o = owner_of("héllo");
    assert!(o.rc_slice(2, 4).is_err());
    assert!(o.rc_slice_to(9).is_err());
    assert!(o.rc_slice_from(2).is_err());
    assert!(o.rc_split_at(2).is_err());
    assert_eq!(Rc::strong_count(&o), 1);
}

#[test]
fn owner_rejects_bad_ranges() {
    let o = owner_of("héllo");
    assert_eq!(o.rc_slice(4, 3).err(), Some(BoundaryViolation));
    assert_eq!(o.rc_slice(0, 7).err(), Some(BoundaryViolation));
    assert_eq!(o.rc_slice(7, 7).err(), Some(BoundaryViolation));
    assert_eq!(o.rc_slice(2, 6).err(), Some(BoundaryViolation));
    assert_eq!(o.rc_slice(0, 2).err(), Some(BoundaryViolation));
    assert_eq!(o.rc_slice_to(7).err(), Some(BoundaryViolation));
    assert_eq!(o.rc_slice_from(7).err(), Some(BoundaryViolation));
    assert_eq!(o.rc_slice_from(2).err(), Some(BoundaryViolation));
    assert_eq!(o.rc_split_at(2).err(), Some(BoundaryViolation));
    assert_eq!(o.rc_split_at(7).err(), Some(BoundaryViolation));
    assert_eq!(o.rc_slice(usize::MAX, usize::MAX).err(), Some(BoundaryViolation));
    assert_eq!(o.rc_slice(0, usize::MAX).err(), Some(BoundaryViolation));
}

#[test]
fn owner_accepts_every_boundary_range() {
    let text = "aé€😀z";
    let o = owner_of(text);
    for from in 0..=text.len() {
        for to in 0..=text.len() {
            let expect = from <= to && text.is_char_boundary(from) && text.is_char_boundary(to);
            match o.rc_slice(from, to) {
                Ok(s) => {
                    assert!(expect);
                    assert_eq!(&*s, &text[from..to]);
                    assert_eq!(s.offset(), from);
                    assert_eq!(s.len(), to - from);
                }
                Err(_) => assert!(!expect),
            }
        }
    }
}

#[test]
fn slice_offsets_count_from_the_slice() {
    let o = owner_of("héllo wörld");
    let s = o.rc_slice_from(4).ok().expect("4 is a boundary");
    assert_eq!(&*s, "lo wörld");
    let w = s.rc_slice_at(3, 9).ok().expect("3..9 is a valid range of the slice");
    assert_eq!(&*w, "wörld");
    assert_eq!(w.offset(), 7);
    assert_eq!(w.len(), 6);
    let head = s.rc_slice_to(2).ok().expect("2 is a boundary of the slice");
    assert_eq!(&*head, "lo");
    assert_eq!(head.offset(), 4);
    let tail = s.rc_slice_from(7).ok().expect("7 is a boundary of the slice");
    assert_eq!(&*tail, "ld");
    assert_eq!(tail.offset(), 11);
    assert!(Rc::ptr_eq(w.owner(), &o));
    assert!(Rc::ptr_eq(tail.owner(), &o));
}

#[test]
fn slice_rejects_bad_ranges() {
    let o = owner_of("héllo wörld");
    let s = o.rc_slice(3, 10).ok().expect("3..10 is a valid range");
    assert_eq!(&*s, "llo wö");
    assert_eq!(s.len(), 7);
    assert_eq!(s.rc_slice_at(3, 2).err(), Some(BoundaryViolation));
    assert_eq!(s.rc_slice_at(0, 8).err(), Some(BoundaryViolation));
    assert_eq!(s.rc_slice_at(0, 6).err(), Some(BoundaryViolation));
    assert_eq!(s.rc_slice_at(6, 7).err(), Some(BoundaryViolation));
    assert_eq!(s.rc_slice_to(8).err(), Some(BoundaryViolation));
    assert_eq!(s.rc_slice_to(6).err(), Some(BoundaryViolation));
    assert_eq!(s.rc_slice_from(8).err(), Some(BoundaryViolation));
    assert_eq!(s.rc_slice_from(6).err(), Some(BoundaryViolation));
    assert_eq!(s.rc_split_at(6).err(), Some(BoundaryViolation));
    assert_eq!(s.rc_split_at(8).err(), Some(BoundaryViolation));
    assert_eq!(s.rc_slice_at(usize::MAX, usize::MAX).err(), Some(BoundaryViolation));
    assert_eq!(Rc::strong_count(&o), 2);
}

#[test]
fn slice_split_covers_the_slice() {
    let o = owner_of("xxaé€😀zyy");
    let s = o.rc_slice(2, 13).ok().expect("2..13 is a valid range");
    let text = "aé€😀z";
    assert_eq!(&*s, text);
    for mid in 0..=text.len() + 1 {
        match s.rc_split_at(mid) {
            Ok((a, b)) => {
                assert!(text.is_char_boundary(mid));
                assert_eq!(a.offset(), 2);
                assert_eq!(b.offset(), 2 + mid);
                assert_eq!(format!("{}{}", &*a, &*b), text);
            }
            Err(_) => assert!(mid > text.len() || !text.is_char_boundary(mid)),
        }
    }
}

#[test]
fn empty_owner() {
    let o = owner_of("");
    let s = o.as_rc_slice();
    assert_eq!(&*s, "");
    assert!(s.is_empty());
    assert_eq!(s.len(), 0);
    let (a, b) = o.rc_split_at(0).ok().expect("0 is a boundary");
    assert!(a.is_empty());
    assert!(b.is_empty());
    assert!(o.rc_slice(0, 0).is_ok());
    assert_eq!(o.rc_slice(0, 1).err(), Some(BoundaryViolation));
    assert_eq!(s.rc_slice_from(1).err(), Some(BoundaryViolation));
    assert_eq!(s.to_owned_string(), "");
}

#[test]
fn slice_reads_as_a_string() {
    let o = owner_of("Hello, Wörld");
    let s: RcStr = o.rc_slice_from(7).ok().expect("7 is a boundary");
    assert_eq!(s.chars().count(), 5);
    assert_eq!(s.to_uppercase(), "WÖRLD");
    assert!(s.starts_with('W'));
    assert_eq!(format!("<{}>", &*s), "<Wörld>");
    assert!(*s < *"X");
    assert_eq!(s.as_bytes(), "Wörld".as_bytes());
    assert_eq!(s.as_str(), "Wörld");
}
