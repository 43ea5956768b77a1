use yeet::path::{get_absolute_path, AbsPath};

fn parse(s: &str, cwd: &AbsPath) -> AbsPath {
    get_absolute_path(&s.as_bytes().to_vec(), cwd)
}

fn abs(s: &str) -> AbsPath {
    parse(s, &AbsPath::root())
}

#[test]
fn root_renders_as_single_separator() {
    assert_eq!(AbsPath::root().to_bytes(), b"/".to_vec());
}

#[test]
fn relative_input_resolves_against_cwd() {
    let cwd = abs("/x");
    assert_eq!(parse("a/b", &cwd).to_bytes(), b"/x/a/b".to_vec());
}

#[test]
fn absolute_input_ignores_cwd() {
    let cwd = abs("/x");
    assert_eq!(parse("/q/r", &cwd).to_bytes(), b"/q/r".to_vec());
}

#[test]
fn dotdot_climbs_one_level() {
    let cwd = abs("/x/y");
    assert_eq!(parse("../z", &cwd).to_bytes(), b"/x/z".to_vec());
}

#[test]
fn dotdot_at_root_is_a_no_op() {
    let cwd = AbsPath::root();
    assert_eq!(parse("../../a", &cwd).to_bytes(), b"/a".to_vec());
}

#[test]
fn dot_and_empty_pieces_are_skipped() {
    let cwd = abs("/x");
    assert_eq!(parse("a//.//b/", &cwd).to_bytes(), b"/x/a/b".to_vec());
}

#[test]
fn dotdot_inside_input_pops_earlier_component() {
    let cwd = abs("/x");
    assert_eq!(parse("a/../../b", &cwd).to_bytes(), b"/b".to_vec());
}

#[test]
fn empty_input_resolves_to_cwd() {
    let cwd = abs("/x/y");
    assert_eq!(parse("", &cwd).to_bytes(), b"/x/y".to_vec());
}

#[test]
fn starts_with_holds_for_componentwise_prefix() {
    let base = abs("/a");
    assert!(abs("/a/b").starts_with(&base));
    assert!(abs("/a").starts_with(&base));
    assert!(!abs("/b/a").starts_with(&base));
}

#[test]
fn starts_with_is_not_a_string_prefix_test() {
    let base = abs("/a");
    assert!(!abs("/ab").starts_with(&base));
}

#[test]
fn strip_prefix_returns_suffix_components() {
    let base = abs("/a");
    let suffix = abs("/a/b/c").strip_prefix(&base);
    assert_eq!(suffix, vec![b"b".to_vec(), b"c".to_vec()]);
}

#[test]
fn join_appends_components() {
    let base = abs("/a");
    let joined = base.join(&vec![b"b".to_vec(), b"c".to_vec()]);
    assert_eq!(joined.to_bytes(), b"/a/b/c".to_vec());
}

#[test]
fn pop_drops_last_component_and_keeps_root() {
    let mut p = abs("/a/b");
    p.pop();
    assert_eq!(p.to_bytes(), b"/a".to_vec());
    let mut r = AbsPath::root();
    r.pop();
    assert_eq!(r.to_bytes(), b"/".to_vec());
}
