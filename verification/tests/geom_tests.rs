use memeroute::model::geom::{Pt, Pt2D, Rt, Rt2D, Sz, Sz2D};
use memeroute::model::primitive::point::PtI;
use memeroute::model::primitive::pti;
use memeroute::model::primitive::rect::RtI as RectI;
use memeroute::model::shape::rt::RtI;
use memeroute::model::geom::qt::query::{matches_tag_query, no_tag, Tag, TagQuery};

fn fields(r: &Rt) -> (i64, i64, i64, i64) {
    (r.x, r.y, r.w, r.h)
}

#[test]
fn rt2d_edges_and_corners() {
    let r: Rt = Rt2D::new(1, 2, 10, 20);
    assert_eq!(r.r(), 11);
    assert_eq!(r.b(), 22);
    let br = r.br();
    assert_eq!((br.x, br.y), (11, 22));
    let tr = r.tr();
    assert_eq!((tr.x, tr.y), (11, 2));
    let bl = r.bl();
    assert_eq!((bl.x, bl.y), (1, 22));
    let tl = r.tl();
    assert_eq!((tl.x, tl.y), (1, 2));
    let s = r.sz();
    assert_eq!((s.w, s.h), (10, 20));
}

#[test]
fn rt2d_center_rounds_towards_zero() {
    let r: Rt = Rt2D::new(0, 0, 5, -5);
    let c = r.center();
    assert_eq!((c.x, c.y), (2, -2));
    let r2: Rt = Rt2D::new(-7, 3, -7, 7);
    let c2 = r2.center();
    assert_eq!((c2.x, c2.y), (-10, 6));
}

#[test]
fn rt2d_enclosing_holds_both_points() {
    let a: Pt = Pt2D::new(5, -3);
    let b: Pt = Pt2D::new(-2, 8);
    let r = Rt2D::enclosing(&a, &b);
    assert_eq!(fields(&r), (-2, -3, 7, 11));
    assert!(r.contains(a));
    assert!(r.contains(b));
    assert!(!r.contains(Pt2D::new(6, 0)));
}

#[test]
fn rt2d_inset() {
    let r: Rt = Rt2D::new(0, 0, 10, 4);
    let a = r.inset_xy(2, 3);
    assert_eq!(fields(&a), (2, 2, 6, 0));
    let b = r.inset(Sz2D::new(1, 1));
    assert_eq!(fields(&b), (1, 1, 8, 2));
}

#[test]
fn rt2d_united() {
    let a: Rt = Rt2D::new(0, 0, 10, 10);
    let e: Rt = Rt2D::new(3, 3, 0, 0);
    assert_eq!(fields(&a.united(&e)), (0, 0, 10, 10));
    assert_eq!(fields(&e.united(&a)), (0, 0, 10, 10));
    let b: Rt = Rt2D::new(5, -5, 10, 10);
    // The far edges are the nearer of the two.
    assert_eq!(fields(&a.united(&b)), (0, -5, 10, 10));
}

#[test]
fn rt2d_misc() {
    let r: Rt = Rt2D::new(0, 0, 0, 0);
    assert!(r.is_empty());
    assert!(r.is_zero());
    assert!(Rt2D::<i64>::zero().is_zero());
    let s: Sz = Sz2D::new(3, 4);
    let f = Rt2D::from_sz(s);
    assert_eq!(fields(&f), (0, 0, 3, 4));
    let g = Rt2D::ptsz(Pt2D::new(1, 1), s);
    assert_eq!(fields(&g), (1, 1, 3, 4));
    let h = g.with_sz(Sz2D::new(9, 9));
    assert_eq!(fields(&h), (1, 1, 9, 9));
    assert!(!Rt2D::new(0i64, 0, 1, 0).is_empty());
}

#[test]
fn pt2d_and_sz2d() {
    let p: Pt = Pt2D::new(3, 4);
    assert_eq!(p.as_array(), [3, 4]);
    let q = p.offset(1, -1);
    assert_eq!((q.x, q.y), (4, 3));
    assert_eq!(p.cross(&Pt2D::new(1, 2)), 2);
    let s = p.as_sz();
    assert_eq!((s.w, s.h), (3, 4));
    assert!(Pt2D::<i64>::zero().is_zero());
    let a: Sz = Sz2D::new(3, 8);
    let b: Sz = Sz2D::new(5, 2);
    let lo = a.min(b);
    let hi = a.max(b);
    assert_eq!((lo.w, lo.h), (3, 2));
    assert_eq!((hi.w, hi.h), (5, 8));
    assert_eq!(a.area(), 24);
    assert!(Sz2D::<i64>::zero().is_zero());
}

#[test]
fn pti_basics() {
    let p = pti(3, -4);
    assert_eq!(p, PtI::new(3, -4));
    assert_eq!(p.mag2(), 25);
    assert!(PtI::zero().is_zero());
    assert!(!p.is_zero());
}

#[test]
fn rect_rti_is_bottom_up() {
    let r = RectI::new(1, 2, 3, 4);
    assert_eq!((r.l(), r.b(), r.r(), r.t(), r.w(), r.h()), (1, 2, 4, 6, 3, 4));
    assert_eq!(r.bl(), pti(1, 2));
    assert_eq!(r.br(), pti(4, 2));
    assert_eq!(r.tl(), pti(1, 6));
    assert_eq!(r.tr(), pti(4, 6));
    let e = RectI::enclosing(pti(4, 6), pti(1, 2));
    assert_eq!(e, r);
}

#[test]
fn shape_rti_is_top_down() {
    let r = RtI::new(1, 2, 3, 5);
    assert_eq!((r.r(), r.b()), (4, 7));
    assert_eq!(r.bl(), PtI::new(1, 7));
    assert_eq!(r.br(), PtI::new(4, 7));
    assert_eq!(r.tl(), PtI::new(1, 2));
    assert_eq!(r.tr(), PtI::new(4, 2));
    assert_eq!(r.center(), PtI::new(2, 4));
    assert_eq!(r.area(), 15);
    assert!(r.contains(PtI::new(4, 7)));
    assert!(!r.contains(PtI::new(0, 7)));
    assert!(RtI::empty().is_empty());
    let e = RtI::enclosing(PtI::new(4, 2), PtI::new(1, 7));
    assert_eq!(e, r);
    assert!(e.contains(PtI::new(4, 2)) && e.contains(PtI::new(1, 7)));
}

#[test]
fn tag_queries() {
    let t = Tag(3);
    assert!(matches_tag_query(t, TagQuery::All));
    assert!(matches_tag_query(t, TagQuery::Tag(Tag(3))));
    assert!(!matches_tag_query(t, TagQuery::Tag(Tag(4))));
    assert!(!matches_tag_query(t, TagQuery::Except(Tag(3))));
    assert!(matches_tag_query(t, TagQuery::Except(Tag(4))));
    assert_eq!(no_tag(), Tag(usize::MAX));
}

#[test]
fn points_and_sizes_from_arrays_and_pairs() {
    let p: Pt = Pt2D::from([3i64, -4]);
    assert_eq!((p.x, p.y), (3, -4));
    let q: Pt = Pt2D::from(p.as_array());
    assert_eq!((q.x, q.y), (3, -4));
    let r: Pt = Pt2D::from((7i64, 8i64));
    assert_eq!((r.x, r.y), (7, 8));
    let r2: Pt = Pt2D::from(&(9i64, 10i64));
    assert_eq!((r2.x, r2.y), (9, 10));
    let s: Sz = Sz2D::from([5i64, 6]);
    assert_eq!((s.w, s.h), (5, 6));
    let s2: Sz = Sz2D::from((1i64, 2i64));
    let pair: (i64, i64) = s2.into();
    assert_eq!(pair, (1, 2));
    let rt: Rt = Rt2D::from(s);
    assert_eq!(fields(&rt), (0, 0, 5, 6));
}

#[test]
fn edges_need_only_their_own_sum_to_fit() {
    // The right edge overflows; the top and bottom edges do not.
    let a = RectI::new(i64::MAX, 2, 1, 3);
    assert_eq!(a.t(), 5);
    assert_eq!((a.tl().x, a.tl().y), (i64::MAX, 5));
    let b = RtI::new(i64::MAX, 2, 1, 3);
    assert_eq!(b.b(), 5);
    assert_eq!((b.bl().x, b.bl().y), (i64::MAX, 5));
    // The bottom edge overflows; the right edge does not.
    let c = RtI::new(1, i64::MAX, 2, 1);
    assert_eq!(c.r(), 3);
    assert_eq!((c.tr().x, c.tr().y), (3, i64::MAX));
    let d = RectI::new(1, i64::MAX, 2, 1);
    assert_eq!(d.r(), 3);
    assert_eq!((d.br().x, d.br().y), (3, i64::MAX));
}
