use pr_attribution::record::record_url;
use pr_attribution::text::{ends_its_line, split_lines, text_before, trimmed};
use pr_attribution::{add_recorded_pr, parse_record, remove_recorded_pr, RecordChange};

const A: &str = "https://github.com/acme/widgets/pull/1";
const B: &str = "https://github.com/acme/gears/pull/22";
const C: &str = "https://github.com/acme/cogs/pull/333";

fn append(text: &str) -> RecordChange {
    RecordChange::Append(text.to_string())
}

fn replace(text: &str) -> RecordChange {
    RecordChange::Replace(text.to_string())
}

#[test]
fn urls_come_in_recorded_order() {
    let contents = format!("{B}\n{A}\n{C}\n");
    assert_eq!(parse_record(&contents), vec![B, A, C]);
}

#[test]
fn titles_blank_lines_and_spaces_are_ignored() {
    let contents = format!("{A}\tA title\twith a tab\n\n   \n  {B} \t\n\tno url\n{C}");
    assert_eq!(parse_record(&contents), vec![A, B, C]);
}

#[test]
fn nothing_is_recorded_in_an_empty_file() {
    assert_eq!(parse_record(""), Vec::<String>::new());
    assert_eq!(parse_record("\n\n"), Vec::<String>::new());
}

#[test]
fn carriage_returns_do_not_reach_the_urls() {
    let contents = format!("{A}\r\n{B}\tT\r\n{C}\r");
    assert_eq!(parse_record(&contents), vec![A, B, C]);
}

#[test]
fn record_url_is_the_first_field_trimmed() {
    assert_eq!(record_url("u\ttitle"), "u");
    assert_eq!(record_url("u"), "u");
    assert_eq!(record_url("  u v  \tt"), "u v");
    assert_eq!(record_url("\tt"), "");
    assert_eq!(record_url(""), "");
}

#[test]
fn lines_are_those_of_std() {
    for text in [
        "", "\n", "a", "a\n", "a\nb", "a\r\nb\r\n", "a\r", "a\r\r\n", "\r\n\n\r", "é\n\u{2028}x\r\n",
    ] {
        let expected: Vec<String> = text.lines().map(|line| line.to_string()).collect();
        assert_eq!(split_lines(text), expected, "{text:?}");
    }
}

#[test]
fn every_character_is_trimmed_as_by_std() {
    for c in '\0'..=char::MAX {
        let text = format!("{c}x{c}y{c}");
        assert_eq!(trimmed(&text), text.trim(), "{c:?}");
        assert_eq!(trimmed(&c.to_string()), c.to_string().trim(), "{c:?}");
    }
}

#[test]
fn text_before_a_character() {
    assert_eq!(text_before("ab\tcd\te", '\t'), "ab");
    assert_eq!(text_before("abc", '\t'), "abc");
    assert_eq!(text_before("\tabc", '\t'), "");
    assert_eq!(text_before("日本\t語", '\t'), "日本");
}

#[test]
fn a_new_url_is_appended_as_a_line() {
    assert_eq!(add_recorded_pr(None, A), append(&format!("{A}\n")));
    assert_eq!(add_recorded_pr(Some(""), A), append(&format!("{A}\n")));
    let contents = format!("{B}\n");
    assert_eq!(add_recorded_pr(Some(&contents), A), append(&format!("{A}\n")));
}

#[test]
fn a_recorded_url_is_not_appended_again() {
    let contents = format!("{B}\n{A}\n");
    assert_eq!(add_recorded_pr(Some(&contents), A), RecordChange::Unchanged);
    assert_eq!(add_recorded_pr(Some(&contents), B), RecordChange::Unchanged);
}

#[test]
fn a_url_with_a_title_counts_as_recorded() {
    let contents = format!("{A}\tSome title\n");
    assert_eq!(add_recorded_pr(Some(&contents), A), RecordChange::Unchanged);
}

#[test]
fn a_longer_url_is_another_url() {
    let contents = format!("{A}0\n");
    assert_eq!(add_recorded_pr(Some(&contents), A), append(&format!("{A}\n")));
}

#[test]
fn a_removed_url_leaves_the_other_lines() {
    let contents = format!("{A}\tT\n{B}\tkept title\n{A}\n\n{C}");
    assert_eq!(
        remove_recorded_pr(Some(&contents), A),
        replace(&format!("{B}\tkept title\n\n{C}\n"))
    );
}

#[test]
fn removal_of_the_last_url_deletes_the_file() {
    let contents = format!("{A}\n{A}\tT\n");
    assert_eq!(remove_recorded_pr(Some(&contents), A), RecordChange::Delete);
    assert_eq!(remove_recorded_pr(Some(""), A), RecordChange::Delete);
}

#[test]
fn removal_without_a_file_changes_nothing() {
    assert_eq!(remove_recorded_pr(None, A), RecordChange::Unchanged);
}

#[test]
fn removal_of_an_unknown_url_rewrites_the_lines() {
    let contents = format!("{A}\r\n{B}");
    assert_eq!(
        remove_recorded_pr(Some(&contents), C),
        replace(&format!("{A}\n{B}\n"))
    );
}

#[test]
fn removal_undoes_addition_of_a_new_url() {
    let before = format!("{A}\n{B}\tT\n");
    let added = match add_recorded_pr(Some(&before), C) {
        RecordChange::Append(text) => format!("{before}{text}"),
        other => panic!("{other:?}"),
    };
    assert_eq!(parse_record(&added), vec![A, B, C]);
    assert_eq!(add_recorded_pr(Some(&added), C), RecordChange::Unchanged);
    assert_eq!(remove_recorded_pr(Some(&added), C), replace(&before));
}

#[test]
fn an_unterminated_line_is_ended_before_a_new_one() {
    for (end, expected) in [("", format!("{A}\n{B}\n")), ("\r", format!("{A}\r\n{B}\n"))] {
        let before = format!("{A}{end}");
        assert_eq!(add_recorded_pr(Some(&before), B), append(&format!("\n{B}\n")));
        let after = format!("{before}\n{B}\n");
        assert_eq!(after, expected);
        assert_eq!(parse_record(&after), vec![A, B]);
        assert_eq!(add_recorded_pr(Some(&after), B), RecordChange::Unchanged);
    }
    assert_eq!(add_recorded_pr(Some(A), A), RecordChange::Unchanged);
    assert_eq!(add_recorded_pr(Some(" "), A), append(&format!("\n{A}\n")));
}

#[test]
fn a_text_ends_its_line_with_a_line_feed() {
    assert!(ends_its_line(""));
    assert!(ends_its_line("a\n"));
    assert!(!ends_its_line("a"));
    assert!(!ends_its_line("a\n\r"));
}

#[test]
fn removal_restores_the_file_to_the_letter() {
    assert_eq!(remove_recorded_pr(Some(&format!("{A}\n")), A), RecordChange::Delete);
    let before = format!("{B}\tT\r\tU\n\n  {C} \n");
    let added = format!("{before}{A}\n");
    assert_eq!(add_recorded_pr(Some(&before), A), append(&format!("{A}\n")));
    assert_eq!(remove_recorded_pr(Some(&added), A), replace(&before));
}

/// The file after a change.
fn changed(file: Option<&str>, change: RecordChange) -> Option<String> {
    match change {
        RecordChange::Unchanged => file.map(|contents| contents.to_string()),
        RecordChange::Append(text) => Some(format!("{}{text}", file.unwrap_or(""))),
        RecordChange::Replace(text) => Some(text),
        RecordChange::Delete => None,
    }
}

fn added(file: Option<&str>, url: &str) -> Option<String> {
    changed(file, add_recorded_pr(file, url))
}

fn removed(file: Option<&str>, url: &str) -> Option<String> {
    changed(file, remove_recorded_pr(file, url))
}

#[test]
fn a_blank_line_is_added_once_and_removed_again() {
    let before = format!("{A}\n");
    let once = added(Some(&before), "");
    assert_eq!(once, Some(format!("{A}\n\n")));
    assert_eq!(add_recorded_pr(once.as_deref(), ""), RecordChange::Unchanged);
    assert_eq!(removed(once.as_deref(), ""), Some(before));
    assert_eq!(removed(added(None, "").as_deref(), ""), None);
}

#[test]
fn a_second_removal_changes_nothing() {
    let before = format!("{A}\n{B}\tT\r\n{A}\n{C}");
    let once = removed(Some(&before), A);
    assert_eq!(once, Some(format!("{B}\tT\n{C}\n")));
    assert_eq!(removed(once.as_deref(), A), once);
    assert_eq!(removed(removed(Some(A), A).as_deref(), A), None);
}

#[test]
fn a_second_removal_strips_a_spare_carriage_return() {
    let before = format!("{B}\r\r\n");
    let once = removed(Some(&before), A);
    assert_eq!(once, Some(format!("{B}\r\n")));
    let twice = removed(once.as_deref(), A);
    assert_eq!(twice, Some(format!("{B}\n")));
    assert_eq!(parse_record(&once.unwrap()), parse_record(&twice.unwrap()));
}

#[test]
fn removals_go_in_either_order() {
    for before in [
        format!("{A}\n{B}\r\r\n{C}\r\r\n{A}\tT"),
        format!("{A}\n{B}\n"),
        format!("{A}\n"),
        format!("{C}\r"),
        String::new(),
    ] {
        let a_first = removed(removed(Some(&before), A).as_deref(), B);
        let b_first = removed(removed(Some(&before), B).as_deref(), A);
        assert_eq!(a_first, b_first, "{before:?}");
    }
}

#[test]
fn every_url_that_is_read_fills_a_field() {
    let urls = parse_record(" \ta\r\n b c \td\n\u{2003}e\u{a0}\r\r\n\n\t\nf\r");
    assert_eq!(urls, vec!["b c", "e", "f"]);
    for url in urls {
        assert_eq!(url, url.trim());
        assert!(!url.is_empty() && !url.contains('\t') && !url.contains('\n'));
    }
}
