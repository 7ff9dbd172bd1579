use itch::range::Range;

#[test]
fn touch_venn() {
    assert!(Range(0, 60).touches(&Range(40, 100)));
}

#[test]
fn touch_reverse_venn() {
    assert!(Range(40, 100).touches(&Range(0, 60)));
}

#[test]
fn touch_outside() {
    assert!(Range(0, 100).touches(&Range(40, 60)));
}

#[test]
fn touch_inside() {
    assert!(Range(40, 60).touches(&Range(0, 100)));
}

#[test]
fn touch_direct() {
    assert!(Range(0, 10).touches(&Range(10, 100)));
}

#[test]
fn touch_reverse_direct() {
    assert!(Range(10, 100).touches(&Range(0, 10)));
}

#[test]
fn touch_separate() {
    assert!(!Range(0, 20).touches(&Range(25, 100)));
}

#[test]
fn touch_reverse_separate() {
    assert!(!Range(25, 100).touches(&Range(0, 20)));
}

#[test]
fn from_indices_insertion_point() {
    let r = Range::from_indices(4, 0);
    assert_eq!(r, Range(4, 4));
}

#[test]
fn from_indices_spanning() {
    let r = Range::from_indices(3, 2);
    assert_eq!(r, Range(2, 4));
}

#[test]
fn join_covers_both() {
    assert_eq!(Range(2, 5).join(&Range(4, 9)), Range(2, 9));
    assert_eq!(Range(4, 9).join(&Range(2, 5)), Range(2, 9));
}

#[test]
fn join_with_opt_none_keeps_self() {
    assert_eq!(Range(2, 5).join_with_opt(&None), Range(2, 5));
    assert_eq!(Range(2, 5).join_with_opt(&Some(Range(0, 1))), Range(0, 5));
}

#[test]
fn join_mut_widens_in_place() {
    let mut r = Range(3, 4);
    r.join_mut(&Range(1, 9));
    assert_eq!(r, Range(1, 9));
}
