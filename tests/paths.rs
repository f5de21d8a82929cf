use orbital::{parse_open_path, push_decimal};

fn chars(s: &str) -> Vec<char> {
    s.chars().collect()
}

#[test]
fn parse_full_path() {
    let p = parse_open_path(&chars("/10/20/300/200/My Title"));
    assert_eq!((p.x, p.y, p.w, p.h), (10, 20, 300, 200));
    assert_eq!(p.title, chars("My Title"));
}

#[test]
fn parse_title_keeps_separators() {
    let p = parse_open_path(&chars("/1/2/3/4/a/b/c"));
    assert_eq!(p.title, chars("a/b/c"));
}

#[test]
fn parse_missing_and_malformed_fields_read_zero() {
    let p = parse_open_path(&chars("/abc/-5"));
    assert_eq!((p.x, p.y, p.w, p.h), (0, -5, 0, 0));
    assert!(p.title.is_empty());
    let q = parse_open_path(&chars(""));
    assert_eq!((q.x, q.y, q.w, q.h), (0, 0, 0, 0));
    let r = parse_open_path(&chars("/-/+/1x/ /t"));
    assert_eq!((r.x, r.y, r.w, r.h), (0, 0, 0, 0));
    assert_eq!(r.title, chars("t"));
}

#[test]
fn parse_signs_and_limits() {
    let p = parse_open_path(&chars("/+7/-2147483648/2147483647/2147483648/"));
    assert_eq!((p.x, p.y, p.w, p.h), (7, i32::MIN, i32::MAX, 0));
    assert!(p.title.is_empty());
}

#[test]
fn parse_first_segment_is_skipped() {
    let p = parse_open_path(&chars("orbital:/5/6/7/8/x"));
    assert_eq!((p.x, p.y, p.w, p.h), (5, 6, 7, 8));
    assert_eq!(p.title, chars("x"));
}

#[test]
fn decimal_text() {
    let mut out = chars("v=");
    push_decimal(&mut out, -2147483648);
    assert_eq!(out, chars("v=-2147483648"));
    let mut z = Vec::new();
    push_decimal(&mut z, 0);
    assert_eq!(z, chars("0"));
    let mut m = Vec::new();
    push_decimal(&mut m, 907);
    assert_eq!(m, chars("907"));
}
