use vexell::paths::{common_base_of, final_output_path, plan_output, PathModel};
use vexell::text::{chars_of, folds_to, is_float_text, parse_u32, string_of, trim_str};

fn chars(s: &str) -> Vec<char> {
    s.chars().collect()
}

fn path(anchor: &[&str], names: &[&str]) -> PathModel {
    PathModel {
        anchor: anchor.iter().map(|s| s.to_string()).collect(),
        names: names.iter().map(|s| s.to_string()).collect(),
    }
}

fn names(p: &PathModel) -> Vec<String> {
    p.names.clone()
}

#[test]
fn trim_removes_unicode_whitespace() {
    assert_eq!(trim_str("  hi there \t\n"), chars("hi there"));
    assert_eq!(trim_str("\u{3000}x\u{a0}"), chars("x"));
    assert_eq!(trim_str("   "), chars(""));
    assert_eq!(trim_str(""), chars(""));
}

#[test]
fn chars_round_trip() {
    let v = chars_of("héllo ⚡");
    assert_eq!(string_of(&v), "héllo ⚡".to_string());
}

#[test]
fn parse_u32_like_from_str() {
    assert_eq!(parse_u32(&chars("4000")), Some(4000));
    assert_eq!(parse_u32(&chars("+42")), Some(42));
    assert_eq!(parse_u32(&chars("0")), Some(0));
    assert_eq!(parse_u32(&chars("4294967295")), Some(u32::MAX));
    assert_eq!(parse_u32(&chars("4294967296")), None);
    assert_eq!(parse_u32(&chars("99999999999999999999")), None);
    assert_eq!(parse_u32(&chars("-1")), None);
    assert_eq!(parse_u32(&chars("+")), None);
    assert_eq!(parse_u32(&chars("")), None);
    assert_eq!(parse_u32(&chars("12a")), None);
    for s in ["7", "+0", "123456", "4294967295", "4294967296", "-0", "1 2", "٣"] {
        assert_eq!(parse_u32(&chars(s)), s.parse::<u32>().ok(), "{}", s);
    }
}

#[test]
fn float_syntax_like_from_str() {
    for s in [
        "500", "1.5", ".5", "5.", "1e3", "1E-3", "+2.5e+10", "inf", "-Infinity", "NaN", "INF", "0",
        "00.00", "1e0",
    ] {
        assert!(is_float_text(&chars(s)), "{}", s);
        assert!(s.parse::<f64>().is_ok(), "{}", s);
    }
    for s in [".", "e5", "1e", "1.2.3", "abc", " 5", "", "+", "1e+", "infinit", "0x10", "1_000", "--1"] {
        assert!(!is_float_text(&chars(s)), "{}", s);
        assert!(s.parse::<f64>().is_err(), "{}", s);
    }
}

#[test]
fn ascii_case_folding() {
    assert!(folds_to(&chars("PnG"), "png"));
    assert!(folds_to(&chars("svg"), "svg"));
    assert!(!folds_to(&chars("svgz"), "svg"));
    assert!(!folds_to(&chars("sv"), "svg"));
}

#[test]
fn extension_follows_path_rules() {
    assert_eq!(path(&["/"], &["a", "b.svg"]).extension(), Some(chars("svg")));
    assert_eq!(path(&[], &["archive.tar.gz"]).extension(), Some(chars("gz")));
    assert_eq!(path(&[], &[".bashrc"]).extension(), None);
    assert_eq!(path(&[], &["foo."]).extension(), Some(chars("")));
    assert_eq!(path(&[], &["noext"]).extension(), None);
    assert_eq!(path(&[], &["a", ".."]).extension(), None);
    assert_eq!(path(&["/"], &[]).extension(), None);
}

#[test]
fn set_extension_replaces_last_one() {
    let mut p = path(&["/"], &["a", "b.tar.gz"]);
    assert!(p.set_extension(&chars("png")));
    assert_eq!(names(&p), vec!["a".to_string(), "b.tar.png".to_string()]);
    let mut q = path(&[], &[".hidden"]);
    assert!(q.set_extension(&chars("webp")));
    assert_eq!(names(&q), vec![".hidden.webp".to_string()]);
    let mut r = path(&[], &["x.svg"]);
    assert!(r.set_extension(&chars("")));
    assert_eq!(names(&r), vec!["x".to_string()]);
    let mut root = path(&["/"], &[]);
    assert!(!root.set_extension(&chars("png")));
}

#[test]
fn pop_and_prefixes() {
    let mut p = path(&["/"], &["a", "b"]);
    assert!(p.pop());
    assert_eq!(names(&p), vec!["a".to_string()]);
    assert!(p.pop());
    assert!(!p.pop());
    assert_eq!(p.anchor, vec!["/".to_string()]);
    let a = path(&["/"], &["src", "icons", "x.svg"]);
    assert!(a.starts_with(&path(&["/"], &["src"])));
    assert!(a.starts_with(&path(&[], &[])));
    assert!(!a.starts_with(&path(&[], &["src"])));
    let rel = a.strip_prefix(&path(&["/"], &["src"])).unwrap();
    assert!(rel.anchor.is_empty());
    assert_eq!(names(&rel), vec!["icons".to_string(), "x.svg".to_string()]);
    assert!(a.strip_prefix(&path(&["/"], &["lib"])).is_none());
}

#[test]
fn common_base_is_deepest_shared_folder() {
    let files = vec![
        path(&["/"], &["p", "src", "a", "one.svg"]),
        path(&["/"], &["p", "src", "b", "c", "two.svg"]),
        path(&["/"], &["p", "src", "three.svg"]),
    ];
    let base = common_base_of(&files);
    assert_eq!(base.anchor, vec!["/".to_string()]);
    assert_eq!(names(&base), vec!["p".to_string(), "src".to_string()]);
    let single = vec![path(&["/"], &["p", "x.svg"])];
    assert_eq!(names(&common_base_of(&single)), vec!["p".to_string()]);
    let disjoint = vec![path(&["/"], &["a", "x.svg"]), path(&["/"], &["b", "y.svg"])];
    let root = common_base_of(&disjoint);
    assert_eq!(root.anchor, vec!["/".to_string()]);
    assert!(root.names.is_empty());
    assert!(common_base_of(&vec![]).is_empty());
}

#[test]
fn folder_output_keeps_tree() {
    let files = vec![
        path(&["/"], &["p", "src", "a", "one.svg"]),
        path(&["/"], &["p", "src", "b", "two.svg"]),
    ];
    let base = common_base_of(&files);
    let out = path(&[], &["dist"]);
    let planned = plan_output(&chars("dist"), &out, false, &files[0], &base, &chars("png"));
    assert!(planned.anchor.is_empty());
    assert_eq!(names(&planned), vec!["dist".to_string(), "a".to_string(), "one.png".to_string()]);
    // a trailing separator marks a folder even with a dot in the name
    let out2 = path(&[], &["out.d"]);
    let p2 = plan_output(&chars("out.d/"), &out2, false, &files[1], &base, &chars("webp"));
    assert_eq!(names(&p2), vec!["out.d".to_string(), "b".to_string(), "two.webp".to_string()]);
    // a path with an extension is an exact file target
    let exact = path(&[], &["final.png"]);
    let p3 = plan_output(&chars("final.png"), &exact, false, &files[1], &base, &chars("webp"));
    assert_eq!(names(&p3), vec!["final.png".to_string()]);
    // unless a folder exists there
    let p4 = plan_output(&chars("final.png"), &exact, true, &files[1], &base, &chars("webp"));
    assert_eq!(names(&p4), vec!["final.png".to_string(), "b".to_string(), "two.webp".to_string()]);
}

#[test]
fn final_output_rules() {
    let input = path(&["/"], &["in", "logo.svg"]);
    let in_place = final_output_path(&input, None, &chars("png"), false);
    assert_eq!(names(&in_place), vec!["in".to_string(), "logo.png".to_string()]);
    let exact = path(&[], &["out", "logo.jpeg"]);
    let kept = final_output_path(&input, Some(&exact), &chars("png"), false);
    assert_eq!(names(&kept), vec!["out".to_string(), "logo.jpeg".to_string()]);
    let targeted = final_output_path(&input, Some(&exact), &chars("webp"), true);
    assert_eq!(names(&targeted), vec!["out".to_string(), "logo.webp".to_string()]);
}

#[test]
fn folding_agrees_with_to_lowercase() {
    let inputs = ["PNG", "Png", "İco", "ICO", "sVg", "\u{212A}", "JPEG", "jpég", "WEBP", "Gif", "TIFF", "bmp", "s\u{17F}g"];
    let targets = ["png", "ico", "svg", "jpeg", "jpg", "webp", "gif", "tiff", "bmp"];
    for s in inputs {
        for t in targets {
            assert_eq!(folds_to(&chars(s), t), s.to_lowercase() == t, "{} {}", s, t);
        }
    }
}
