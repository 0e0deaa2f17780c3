//! Tests of the area algebra over a virtual screen.
use meli::area::Alignment;
use meli::area::Alignment::{Center, End, Fill, Start};
use meli::screen::{Screen, Virtual};

#[test]
fn test_skip_rows() {
    let mut screen = Screen::<Virtual>::new(Default::default());
    assert!(screen.resize(120, 20));
    let area = screen.area();
    assert_eq!(area.width(), 120);
    assert_eq!(area.height(), 20);

    for i in 1..=area.height() {
        assert_eq!(area.skip_rows(i).height(), area.height() - i);
        assert!(area.contains(area.skip_rows(i)));
        if i < area.height() {
            assert!(!area.take_rows(i).contains(area.skip_rows(i)));
        } else {
            assert!(area.take_rows(i).contains(area.skip_rows(i)));
        }
    }

    assert!(area.skip_rows(area.height()).is_empty());
    assert_eq!(area.skip_rows(0), area);
}

#[test]
fn test_skip_rows_from_end() {
    let mut screen = Screen::<Virtual>::new(Default::default());
    assert!(screen.resize(120, 20));
    let area = screen.area();
    assert_eq!(area.width(), 120);
    assert_eq!(area.height(), 20);

    for i in 1..=area.height() {
        assert_eq!(area.skip_rows_from_end(i).height(), area.height() - i);
        assert!(area.contains(area.skip_rows_from_end(i)));
    }

    assert!(area.skip_rows_from_end(area.height()).is_empty());
    assert_eq!(area.skip_rows_from_end(0), area);
}

#[test]
fn test_skip_cols() {
    let mut screen = Screen::<Virtual>::new(Default::default());
    assert!(screen.resize(120, 20));
    let area = screen.area();
    assert_eq!(area.width(), 120);
    assert_eq!(area.height(), 20);

    for i in 1..=area.width() {
        assert_eq!(area.skip_cols(i).width(), area.width() - i);
        assert!(area.contains(area.skip_cols(i)));
        if i < area.width() {
            assert!(!area.take_cols(i).contains(area.skip_cols(i)));
        } else {
            assert!(area.take_cols(i).contains(area.skip_cols(i)));
        }
    }

    assert!(area.skip_cols(area.width()).is_empty());
    assert_eq!(area.skip_cols(0), area);
}

#[test]
fn test_skip_cols_from_end() {
    let mut screen = Screen::<Virtual>::new(Default::default());
    assert!(screen.resize(120, 20));
    let area = screen.area();
    assert_eq!(area.width(), 120);
    assert_eq!(area.height(), 20);

    for i in 1..=area.width() {
        assert_eq!(area.skip_cols_from_end(i).width(), area.width() - i);
        assert!(area.contains(area.skip_cols_from_end(i)));
    }

    assert!(area.skip_cols_from_end(area.width()).is_empty());
    assert_eq!(area.skip_cols_from_end(0), area);
}

#[test]
fn test_take_rows() {
    let mut screen = Screen::<Virtual>::new(Default::default());
    assert!(screen.resize(120, 20));
    let area = screen.area();
    assert_eq!(area.width(), 120);
    assert_eq!(area.height(), 20);

    for i in 1..=area.height() {
        assert_eq!(area.take_rows(i).height(), i);
        assert!(area.contains(area.take_rows(i)));
    }

    assert!(area.take_rows(0).is_empty());
    assert_eq!(area.take_rows(area.height()), area);
}

#[test]
fn test_take_cols() {
    let mut screen = Screen::<Virtual>::new(Default::default());
    assert!(screen.resize(120, 20));
    let area = screen.area();
    assert_eq!(area.width(), 120);
    assert_eq!(area.height(), 20);

    for i in 1..=area.width() {
        assert_eq!(area.take_cols(i).width(), i);
        assert!(area.contains(area.take_cols(i)));
    }

    assert!(area.take_cols(0).is_empty());
    assert_eq!(area.take_cols(area.width()), area);
}

#[test]
fn test_nth_area() {
    let mut screen = Screen::<Virtual>::new(Default::default());
    assert!(screen.resize(120, 20));
    let area = screen.area();
    assert_eq!(area.width(), 120);
    assert_eq!(area.height(), 20);

    for i in 0..area.width() {
        assert_eq!(area.nth_col(i).width(), 1);
        assert!(area.contains(area.nth_col(i)));
        if i + 1 == area.width() {
            assert!(area.nth_col(i).contains(area.nth_col(i + 1)));
        } else {
            assert!(!area.nth_col(i).contains(area.nth_col(i + 1)));
        }
    }

    for i in 0..area.height() {
        assert_eq!(area.nth_row(i).height(), 1);
        assert!(area.contains(area.nth_row(i)));
        if i + 1 == area.height() {
            assert!(area.nth_row(i).contains(area.nth_row(i + 1)));
        } else {
            assert!(!area.nth_row(i).contains(area.nth_row(i + 1)));
        }
    }
}

#[test]
fn test_place_inside_area() {
    let mut screen = Screen::<Virtual>::new(Default::default());
    assert!(screen.resize(120, 20));
    let area = screen.area();
    assert_eq!(area.width(), 120);
    assert_eq!(area.height(), 20);

    for width in 0..area.width() {
        for height in 0..area.height() {
            for upper in [true, false] {
                for left in [true, false] {
                    let inner = area.place_inside((width, height), upper, left);
                    assert!(area.contains(inner));
                    if (3..area.height() - 2).contains(&height)
                        && (3..area.width() - 2).contains(&width)
                    {
                        assert_ne!(area, inner);
                    }
                }
            }
        }
    }
}

#[test]
fn test_align_inside_area() {
    let alignments: [Alignment; 4] = [Fill, Start, End, Center];

    let mut screen = Screen::<Virtual>::new(Default::default());
    assert!(screen.resize(120, 20));
    let area = screen.area();
    assert_eq!(area.width(), 120);
    assert_eq!(area.height(), 20);

    // Ask for all subsets that area has:
    for width in 1..=area.width() {
        for height in 1..=area.height() {
            for horz in alignments {
                for vert in alignments {
                    let inner = area.align_inside((width, height), horz, vert);
                    assert!(area.contains(inner));
                    assert!(!inner.is_empty());
                    match (horz, vert) {
                        (Fill, Fill) => {
                            assert_eq!(area, inner);
                        }
                        (Fill, _) => {
                            assert_eq!(inner.width(), area.width());
                            assert_eq!(inner.height(), height);
                        }
                        (_, Fill) => {
                            assert_eq!(inner.height(), area.height());
                            assert_eq!(inner.width(), width);
                        }
                        _ => {
                            assert_eq!((width, height), inner.size());
                            if (width, height) != area.size() {
                                assert_ne!(area, inner);
                            }
                        }
                    }
                }
            }
        }
    }

    // Ask for more width/height than area has:
    for width in 1..=(2 * area.width()) {
        for height in 1..=(2 * area.height()) {
            for horz in alignments {
                for vert in alignments {
                    let inner = area.align_inside((width, height), horz, vert);
                    assert!(area.contains(inner));
                    assert!(!inner.is_empty());
                    match (horz, vert) {
                        (Fill, Fill) => {
                            assert_eq!(area, inner);
                        }
                        (Fill, _) => {
                            assert_eq!(inner.width(), area.width());
                            assert!(
                                height >= inner.height() && area.height() >= inner.height()
                            );
                        }
                        (_, Fill) => {
                            assert_eq!(inner.height(), area.height());
                            assert!(width >= inner.width() && area.width() >= inner.width());
                        }
                        _ => {
                            assert!(
                                height >= inner.height() && area.height() >= inner.height()
                            );
                            assert!(width >= inner.width() && area.width() >= inner.width());
                        }
                    }
                }
            }
        }
    }
}

#[test]
fn nth_row_and_col_past_the_end_give_the_last_one() {
    let mut screen = Screen::<Virtual>::new(Default::default());
    assert!(screen.resize(12, 5));
    let area = screen.area();
    assert_eq!(area.nth_row(9), area.nth_row(4));
    assert_eq!(area.nth_row(9).upper_left(), (0, 4));
    assert_eq!(area.nth_col(30), area.nth_col(11));
    assert_eq!(area.nth_col(30).bottom_right(), (11, 4));
    let empty = area.take_rows(0);
    assert!(empty.nth_row(0).is_empty());
}
