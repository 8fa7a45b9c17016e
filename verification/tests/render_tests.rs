use todo_reminder::render::{i32_to_string, render};

#[test]
fn template_substitution() {
    let out = render("Task {title} (ID:{id}) due", "Ship release", 42);
    assert_eq!(out, "Task Ship release (ID:42) due");
}

#[test]
fn every_occurrence_is_replaced() {
    let out = render("{title}/{title} #{id}#{id}", "x", 7);
    assert_eq!(out, "x/x #7#7");
}

#[test]
fn template_without_placeholders_is_unchanged() {
    let out = render("nothing to see", "title", 1);
    assert_eq!(out, "nothing to see");
}

#[test]
fn empty_template_renders_empty() {
    let out = render("", "title", 1);
    assert_eq!(out, "");
}

#[test]
fn no_escaping_title_may_inject_id_placeholder() {
    // Substitution is plain text replacement, title first, then id.
    let out = render("{title}", "see {id}", 3);
    assert_eq!(out, "see 3");
}

#[test]
fn unicode_titles_render() {
    let out = render("task {title} ({id})", "\u{4efb}\u{52a1}\u{a}ok", -5);
    assert_eq!(out, "task \u{4efb}\u{52a1}\u{a}ok (-5)");
}

#[test]
fn i32_rendering() {
    assert_eq!(i32_to_string(0), "0");
    assert_eq!(i32_to_string(42), "42");
    assert_eq!(i32_to_string(-1), "-1");
    assert_eq!(i32_to_string(1000), "1000");
    assert_eq!(i32_to_string(i32::MAX), "2147483647");
    assert_eq!(i32_to_string(i32::MIN), "-2147483648");
}

#[test]
fn overlapping_pattern_is_scanned_left_to_right() {
    // "{title{title}}" holds one whole "{title}" starting at index 6.
    let out = render("{title{title}}", "T", 1);
    assert_eq!(out, "{titleT}");
}
