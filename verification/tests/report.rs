use clockhand::report::{
    hours_to_string, render_report, report_text, split_words, strip_newlines_and_tabs,
    truncate_with_ellipsis, truncate_words, ReportEntry, ELLIPSIS, NOTES_LIMIT,
};

fn entry(date: &str, id: i32, name: &str, hours: i32, minutes: i32, notes: Option<&str>) -> ReportEntry {
    ReportEntry {
        spent_date: date.to_string(),
        project_id: id,
        project_name: name.to_string(),
        hours,
        minutes,
        notes: notes.map(|n| n.to_string()),
    }
}

#[test]
fn strip_removes_tabs_and_newlines_only() {
    assert_eq!(strip_newlines_and_tabs("a\tb\nc d\r"), "abc d\r");
    assert_eq!(strip_newlines_and_tabs("\t\n\n\t"), "");
    assert_eq!(strip_newlines_and_tabs(""), "");
    assert_eq!(strip_newlines_and_tabs("pl\u{e4}in"), "pl\u{e4}in");
}

#[test]
fn strip_agrees_with_replace() {
    for s in ["\tlead", "trail\n", "mid\t\ndle", "none", "\n", "a\tb\tc\nd\n"].iter() {
        assert_eq!(strip_newlines_and_tabs(s), s.replace("\t", "").replace("\n", ""));
    }
}

#[test]
fn truncate_keeps_short_text_with_a_space_after_each_word() {
    assert_eq!(truncate_with_ellipsis("hello world", 60), "hello world ");
    assert_eq!(truncate_with_ellipsis("  hello \t\n world  ", 60), "hello world ");
    assert_eq!(truncate_with_ellipsis("", 60), "");
    assert_eq!(truncate_with_ellipsis("   ", 60), "");
}

#[test]
fn truncate_cuts_at_a_word_boundary() {
    assert_eq!(truncate_with_ellipsis("hello world foo", 11), "hello world \u{e2}\u{20ac}\u{a6}");
    assert_eq!(truncate_with_ellipsis("hello world foo", 10), "hello \u{e2}\u{20ac}\u{a6}");
    assert_eq!(truncate_with_ellipsis("hello world foo", 4), "\u{e2}\u{20ac}\u{a6}");
    assert_eq!(truncate_with_ellipsis("hello", 5), "hello ");
    assert_eq!(truncate_with_ellipsis("hello", 0), "\u{e2}\u{20ac}\u{a6}");
    assert_eq!(truncate_with_ellipsis("hello a", 5), "hello \u{e2}\u{20ac}\u{a6}");
}

#[test]
fn words_are_the_runs_between_white_space() {
    assert_eq!(split_words("  one two\tthree\n"), vec!["one", "two", "three"]);
    assert_eq!(split_words("one"), vec!["one"]);
    assert_eq!(split_words(" \t "), Vec::<String>::new());
    assert_eq!(split_words(""), Vec::<String>::new());
}

#[test]
fn words_are_shown_as_long_as_they_fit() {
    let words = vec!["ab".to_string(), "cd".to_string(), "ef".to_string()];
    assert_eq!(truncate_words(&words, 100), "ab cd ef ");
    assert_eq!(truncate_words(&words, 5), "ab cd \u{e2}\u{20ac}\u{a6}");
    assert_eq!(truncate_words(&words, 4), "ab \u{e2}\u{20ac}\u{a6}");
    assert_eq!(truncate_words(&words, 1), "\u{e2}\u{20ac}\u{a6}");
    assert_eq!(truncate_words(&Vec::new(), 0), "");
    assert_eq!(truncate_words(&vec![String::new(), "x".to_string()], 0), " \u{e2}\u{20ac}\u{a6}");
}

#[test]
fn truncate_marks_what_is_left_out_with_three_characters() {
    let cut = truncate_with_ellipsis("hello world", 5);
    assert_eq!(cut, "hello \u{e2}\u{20ac}\u{a6}");
    assert_eq!(cut.chars().count(), 9);
    assert_eq!(cut.len(), 13);
    assert_eq!(ELLIPSIS, "\u{e2}\u{20ac}\u{a6}");
    assert_eq!(ELLIPSIS.as_bytes(), [0xc3, 0xa2, 0xe2, 0x82, 0xac, 0xc2, 0xa6]);
}

#[test]
fn truncate_counts_bytes() {
    assert_eq!(truncate_with_ellipsis("\u{e9}\u{e9}\u{e9} b", 6), "\u{e9}\u{e9}\u{e9} \u{e2}\u{20ac}\u{a6}");
    assert_eq!(truncate_with_ellipsis("\u{e9}\u{e9}\u{e9} b", 5), "\u{e2}\u{20ac}\u{a6}");
    assert_eq!(truncate_with_ellipsis("\u{e9}\u{e9}\u{e9} b", 8), "\u{e9}\u{e9}\u{e9} b ");
}

#[test]
fn truncate_splits_on_unicode_white_space() {
    assert_eq!(truncate_with_ellipsis("a\u{a0}b\u{2003}c\u{3000}d", 60), "a b c d ");
    assert_eq!(truncate_with_ellipsis("a\u{200b}b", 60), "a\u{200b}b ");
}

#[test]
fn truncate_agrees_with_split_whitespace() {
    for s in ["one two  three", " x ", "tab\tsep", "a\nb", "word"].iter() {
        let mut expected = String::new();
        for word in s.split_whitespace() {
            expected.push_str(word);
            expected.push(' ');
        }
        assert_eq!(truncate_with_ellipsis(s, 1000), expected);
    }
}

#[test]
fn hours_and_minutes_render_with_two_digits() {
    assert_eq!(hours_to_string(1, 30), "01h 30m");
    assert_eq!(hours_to_string(12, 5), "12h 05m");
    assert_eq!(hours_to_string(100, 0), "100h 00m");
    assert_eq!(hours_to_string(8, 60), "08h 60m");
}

#[test]
fn zero_hours_leave_the_hour_column_blank() {
    assert_eq!(hours_to_string(0, 15), "    15m");
    assert_eq!(hours_to_string(0, 0), "    00m");
    assert_eq!(hours_to_string(0, 15).len(), hours_to_string(1, 30).len());
}

#[test]
fn hours_render_as_the_standard_formatter_does() {
    for hours in [i32::MIN, -100, -10, -9, -1, 1, 9, 10, 99, 100, 2024, i32::MAX].iter() {
        for minutes in [i32::MIN, -5, 0, 7, 59, 60, 123, i32::MAX].iter() {
            assert_eq!(hours_to_string(*hours, *minutes), format!("{:02}h {:02}m", hours, minutes));
        }
    }
    for minutes in [i32::MIN, -5, 0, 7, 59, 60, 123, i32::MAX].iter() {
        assert_eq!(hours_to_string(0, *minutes), format!("    {:02}m", minutes));
    }
}

fn split(decimal_hours: f32) -> (i32, i32) {
    let hours = decimal_hours.floor() as i32;
    let minutes = ((decimal_hours - hours as f32) * 60.0).round() as i32;
    (hours, minutes)
}

#[test]
fn decimal_hours_render_as_hours_and_minutes() {
    let (hours, minutes) = split(1.5);
    assert_eq!(hours_to_string(hours, minutes), "01h 30m");
    let (hours, minutes) = split(0.25);
    assert_eq!(hours_to_string(hours, minutes), "    15m");
    let (hours, minutes) = split(7.75);
    assert_eq!(hours_to_string(hours, minutes), "07h 45m");
    let (hours, minutes) = split(0.0);
    assert_eq!(hours_to_string(hours, minutes), "    00m");
}

#[test]
fn notes_limit_is_sixty() {
    assert_eq!(NOTES_LIMIT, 60);
}

#[test]
fn line_has_five_columns() {
    let line = entry("2024-01-02", 42, "Al\tpha\n", 1, 30, Some("wrote the parser")).line();
    assert_eq!(line, "2024-01-02\t42\tAlpha\t01h 30m\twrote the parser \n");
}

#[test]
fn line_without_notes_says_none() {
    let line = entry("2024-01-03", -7, "Beta", 0, 15, None).line();
    assert_eq!(line, "2024-01-03\t-7\tBeta\t    15m\t(none) \n");
}

#[test]
fn line_truncates_long_notes() {
    let notes = "aaaaaaaaa bbbbbbbbb ccccccccc ddddddddd eeeeeeeee fffffffff ggggggggg";
    let line = entry("2024-01-04", 1, "G", 2, 0, Some(notes)).line();
    assert_eq!(
        line,
        "2024-01-04\t1\tG\t02h 00m\taaaaaaaaa bbbbbbbbb ccccccccc ddddddddd eeeeeeeee fffffffff \u{e2}\u{20ac}\u{a6}\n"
    );
}

#[test]
fn text_is_the_lines_in_order() {
    let entries = vec![
        entry("2024-01-02", 42, "Alpha", 1, 30, Some("x")),
        entry("2024-01-03", 99, "Beta", 0, 15, None),
    ];
    assert_eq!(
        report_text(&entries),
        "2024-01-02\t42\tAlpha\t01h 30m\tx \n2024-01-03\t99\tBeta\t    15m\t(none) \n"
    );
    assert_eq!(report_text(&Vec::new()), "");
}

#[test]
fn report_aligns_the_columns() {
    let entries = vec![
        entry("2024-01-02", 42, "Alpha", 1, 30, Some("x")),
        entry("2024-01-03", 7, "Be", 0, 15, None),
    ];
    assert_eq!(
        render_report(&entries),
        "2024-01-02  42  Alpha  01h 30m  x \n2024-01-03  7   Be         15m  (none) \n"
    );
}

#[test]
fn report_of_nothing_is_empty() {
    assert_eq!(render_report(&Vec::new()), "");
}
