use addon_manifest::text::{find_dot, parse_i32_in, same_text};

#[test]
fn reads_integers_in_a_range() {
    let s = "ab-42cd";
    assert_eq!(parse_i32_in(s, 2, 5), Some(-42));
    assert_eq!(parse_i32_in(s, 3, 5), Some(42));
    assert_eq!(parse_i32_in(s, 2, 3), None);
    assert_eq!(parse_i32_in(s, 0, 0), None);
    assert_eq!(parse_i32_in(s, 1, 5), None);
    assert_eq!(parse_i32_in("+7", 0, 2), Some(7));
    assert_eq!(parse_i32_in("007", 0, 3), Some(7));
}

#[test]
fn finds_dots() {
    let s = "1.22.3";
    assert_eq!(find_dot(s, 6, 0), 1);
    assert_eq!(find_dot(s, 6, 2), 4);
    assert_eq!(find_dot(s, 6, 5), 6);
    assert_eq!(find_dot(s, 6, 6), 6);
}

#[test]
fn compares_text() {
    assert!(same_text("raytraced", "raytraced"));
    assert!(!same_text("raytraced", "raytrace"));
    assert!(!same_text("pbr", "PBR"));
    assert!(same_text("", ""));
}
