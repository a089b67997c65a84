use junie_tui::measure::{Constraints, Size};

#[test]
fn measure_reports_min_and_preferred() {
    let s = Size { min: (10, 1), preferred: (40, 3) };
    let f = s.fit(Constraints::loose(20, 2));
    assert_eq!(f, Size { min: (10, 1), preferred: (20, 2) });
    let t = s.fit(Constraints::tight(30, 5));
    assert_eq!(t, Size::exact(30, 5));
    let c = Constraints { max: (12, 9), tight_w: true, tight_h: false };
    assert_eq!(s.fit(c), Size { min: (12, 1), preferred: (12, 3) });
}

#[test]
fn fitting_twice_is_fitting_once() {
    let s = Size { min: (50, 50), preferred: (3, 70) };
    let c = Constraints::loose(10, 60);
    assert_eq!(s.fit(c).fit(c), s.fit(c));
    assert_eq!(s.fit(c), Size { min: (10, 50), preferred: (3, 60) });
}
