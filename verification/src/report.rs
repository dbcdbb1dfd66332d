//! The weekly report: one line per time entry, its columns aligned.

use vstd::prelude::*;
use vstd::string::StringExecFns;
use vstd::utf8::encode_utf8;
use crate::text::{
    from_chars, push_char, push_signed_decimal, push_two_digits, signed_decimal, to_chars,
    two_digits,
};

verus! {

/// The number of bytes up to which the words of an entry's notes are shown.
pub const NOTES_LIMIT: usize = 60;

/// The mark that stands for the words that are not shown: the three
/// characters U+00E2, U+20AC and U+00A6.
pub const ELLIPSIS: &'static str = "\u{e2}\u{20ac}\u{a6}";

/// The characters of the mark.
pub proof fn lemma_ellipsis_chars()
    ensures
        ELLIPSIS@ == seq!['\u{e2}', '\u{20ac}', '\u{a6}'],
{
    reveal_strlit("\u{e2}\u{20ac}\u{a6}");
    assert(ELLIPSIS@ =~= seq!['\u{e2}', '\u{20ac}', '\u{a6}']);
}

/// What the report shows for an entry without notes.
pub const NO_NOTES: &'static str = "(none)";

/// Whether `c` is white space, as `char::is_whitespace` tells.
pub uninterp spec fn is_whitespace(c: char) -> bool;

/// Tells whether `c` is white space. This is `char::is_whitespace`, which
/// goes by the Unicode property `White_Space`. Nothing is proved of it: its
/// answer depends on `c` alone, and the contract only gives that answer a
/// name.
#[verifier::external_body]
fn char_is_whitespace(c: char) -> (white: bool)
    ensures
        white == is_whitespace(c),
{
    c.is_whitespace()
}

/// `text` as it reads once its columns are aligned, as the `tabwriter`
/// crate aligns them.
pub uninterp spec fn tab_aligned(text: Seq<char>) -> Seq<char>;

/// Aligns the tab-separated columns of `text`. The text is written through
/// a `tabwriter::TabWriter` as `TabWriter::new` sets it up, into a byte
/// vector, which `TabWriter::into_inner` hands back once all is flushed;
/// writing to a byte vector does not fail. Nothing is proved of the
/// alignment: what comes out depends on `text` alone, and the contract only
/// gives it a name.
#[verifier::external_body]
fn align_columns(text: &str) -> (aligned: String)
    ensures
        aligned@ == tab_aligned(text@),
{
    let mut writer = tabwriter::TabWriter::new(Vec::new());
    let _ = std::io::Write::write_all(&mut writer, text.as_bytes());
    let bytes = writer.into_inner().unwrap_or_default();
    String::from_utf8_lossy(&bytes).into_owned()
}

/// `s` without its tabs and newlines.
pub open spec fn spec_strip(s: Seq<char>) -> Seq<char> {
    s.filter(|c: char| c != '\t' && c != '\n')
}

/// Removes all newlines and tabs from a string.
pub fn strip_newlines_and_tabs(s: &str) -> (stripped: String)
    ensures
        stripped@ == spec_strip(s@),
{
    let ghost kept = |c: char| c != '\t' && c != '\n';
    let chars = to_chars(s);
    let mut stripped = String::new();
    let mut i: usize = 0;
    assert(chars@.take(0).filter(kept) == Seq::<char>::empty()) by {
        reveal(Seq::filter);
    }
    while i < chars.len()
        invariant
            i <= chars.len(),
            kept == (|c: char| c != '\t' && c != '\n'),
            stripped@ == chars@.take(i as int).filter(kept),
        decreases chars.len() - i,
    {
        let c = chars[i];
        proof {
            assert(chars@.take(i + 1) == chars@.take(i as int).push(c));
            chars@.take(i as int).lemma_filter_push(c, kept);
        }
        if c != '\t' && c != '\n' {
            push_char(&mut stripped, c);
        }
        i += 1;
    }
    proof {
        assert(chars@.take(chars.len() as int) == chars@);
    }
    stripped
}

/// The pieces of `s` between white-space characters, empty ones included.
pub open spec fn fields(s: Seq<char>) -> Seq<Seq<char>>
    decreases s.len(),
{
    if s.len() == 0 {
        seq![Seq::empty()]
    } else {
        let init = fields(s.drop_last());
        if is_whitespace(s.last()) {
            init.push(Seq::empty())
        } else {
            init.drop_last().push(init.last().push(s.last()))
        }
    }
}

/// The words of `s`: its longest runs of characters that are not white
/// space, in order.
pub open spec fn words(s: Seq<char>) -> Seq<Seq<char>> {
    fields(s).filter(|field: Seq<char>| field.len() > 0)
}

/// The number of bytes that `s` takes as a string.
pub open spec fn byte_len(s: Seq<char>) -> nat {
    encode_utf8(s).len()
}

/// What is shown of `words` behind `shown`: each word with a space after
/// it, as long as the bytes shown so far and those of the next word are no
/// more than `limit`; then the mark in place of the words that are left.
pub open spec fn truncation(words: Seq<Seq<char>>, limit: nat, shown: Seq<char>) -> Seq<char>
    decreases words.len(),
{
    if words.len() == 0 {
        shown
    } else if byte_len(shown) + byte_len(words[0]) > limit {
        shown + ELLIPSIS@
    } else {
        truncation(words.drop_first(), limit, shown + words[0] + seq![' '])
    }
}

/// `s` cut down to about `limit` bytes at a word boundary.
pub open spec fn spec_truncate(s: Seq<char>, limit: nat) -> Seq<char> {
    truncation(words(s), limit, Seq::empty())
}

/// The character sequences held by a vector of strings.
pub open spec fn string_views(v: Seq<String>) -> Seq<Seq<char>> {
    v.map_values(|s: String| s@)
}

/// The words of `s`, in order.
pub fn split_words(s: &str) -> (found: Vec<String>)
    ensures
        string_views(found@) == words(s@),
{
    let ghost nonempty = |field: Seq<char>| field.len() > 0;
    let chars = to_chars(s);
    let mut found: Vec<String> = Vec::new();
    let mut cur: Vec<char> = Vec::new();
    let mut i: usize = 0;
    assert(fields(chars@.take(0)).drop_last().filter(nonempty) == Seq::<Seq<char>>::empty()) by {
        reveal(Seq::filter);
        assert(fields(chars@.take(0)).drop_last().len() == 0);
    }
    while i < chars.len()
        invariant
            i <= chars.len(),
            chars@ == s@,
            nonempty == (|field: Seq<char>| field.len() > 0),
            fields(chars@.take(i as int)).len() > 0,
            cur@ == fields(chars@.take(i as int)).last(),
            string_views(found@) == fields(chars@.take(i as int)).drop_last().filter(nonempty),
        decreases chars.len() - i,
    {
        let c = chars[i];
        let ghost before = fields(chars@.take(i as int));
        let ghost views_before = string_views(found@);
        proof {
            assert(chars@.take(i + 1).drop_last() == chars@.take(i as int));
            assert(chars@.take(i + 1).last() == c);
        }
        if char_is_whitespace(c) {
            proof {
                assert(before.push(Seq::empty()).drop_last() == before);
                assert(before == before.drop_last().push(cur@));
                before.drop_last().lemma_filter_push(cur@, nonempty);
            }
            if cur.len() > 0 {
                let word = from_chars(&cur);
                found.push(word);
                assert(string_views(found@) == views_before.push(cur@));
            }
            cur = Vec::new();
        } else {
            cur.push(c);
            proof {
                let after = before.drop_last().push(before.last().push(c));
                assert(after.drop_last() == before.drop_last());
            }
        }
        i += 1;
    }
    proof {
        assert(chars@.take(chars.len() as int) == chars@);
        let all = fields(chars@);
        assert(all == all.drop_last().push(cur@));
        all.drop_last().lemma_filter_push(cur@, nonempty);
    }
    if cur.len() > 0 {
        let ghost views_before = string_views(found@);
        let word = from_chars(&cur);
        found.push(word);
        assert(string_views(found@) == views_before.push(cur@));
    }
    found
}

/// What is shown of `words` within `len` bytes: the words that fit, each
/// with a space after it, and the mark if words are left over.
pub fn truncate_words(words: &Vec<String>, len: usize) -> (truncated: String)
    ensures
        truncated@ == truncation(string_views(words@), len as nat, Seq::empty()),
{
    let ghost all = string_views(words@);
    let mut truncated = String::new();
    let mut i: usize = 0;
    assert(all.skip(0) == all);
    while i < words.len()
        invariant
            i <= words.len(),
            all == string_views(words@),
            truncation(all.skip(i as int), len as nat, truncated@) == truncation(
                all,
                len as nat,
                Seq::empty(),
            ),
        decreases words.len() - i,
    {
        let word = words[i].as_str();
        let used = truncated.as_str().as_bytes().len();
        let needed = word.as_bytes().len();
        proof {
            assert(all.skip(i as int)[0] == word@);
            assert(all.skip(i as int).drop_first() == all.skip(i + 1));
        }
        if used > len || needed > len - used {
            truncated.append(ELLIPSIS);
            return truncated;
        }
        let ghost shown = truncated@;
        truncated.append(word);
        push_char(&mut truncated, ' ');
        proof {
            assert(truncated@ == shown + word@ + seq![' ']);
        }
        i += 1;
    }
    truncated
}

/// Truncates a string to a given length based on word boundaries, and
/// appends the mark [`ELLIPSIS`] where words are left out.
pub fn truncate_with_ellipsis(s: &str, len: usize) -> (truncated: String)
    ensures
        truncated@ == spec_truncate(s@, len as nat),
{
    let found = split_words(s);
    truncate_words(&found, len)
}

/// A span of `hours` whole hours and `minutes` minutes as a column of the
/// report: `01h 30m`; without whole hours, blanks stand in their place, so
/// that the minutes stay in line: `    15m`.
pub open spec fn spec_hours(hours: int, minutes: int) -> Seq<char> {
    if hours == 0 {
        seq![' ', ' ', ' ', ' '] + two_digits(minutes) + seq!['m']
    } else {
        two_digits(hours) + seq!['h', ' '] + two_digits(minutes) + seq!['m']
    }
}

/// A span of `hours` whole hours and `minutes` minutes as a column of the
/// report.
pub fn hours_to_string(hours: i32, minutes: i32) -> (column: String)
    ensures
        column@ == spec_hours(hours as int, minutes as int),
{
    let mut column = String::new();
    if hours == 0 {
        push_char(&mut column, ' ');
        push_char(&mut column, ' ');
        push_char(&mut column, ' ');
        push_char(&mut column, ' ');
        assert(column@ == seq![' ', ' ', ' ', ' ']);
    } else {
        push_two_digits(&mut column, hours as i64);
        push_char(&mut column, 'h');
        push_char(&mut column, ' ');
        assert(column@ == two_digits(hours as int) + seq!['h', ' ']);
    }
    push_two_digits(&mut column, minutes as i64);
    push_char(&mut column, 'm');
    column
}

/// One time entry of the report.
#[derive(Debug)]
pub struct ReportEntry {
    /// The day on which the time was spent.
    pub spent_date: String,
    /// The identifier of the project that the time was spent on.
    pub project_id: i32,
    /// The name of that project.
    pub project_name: String,
    /// The whole hours spent.
    pub hours: i32,
    /// The minutes spent beyond the whole hours.
    pub minutes: i32,
    /// What was noted of the work, if anything.
    pub notes: Option<String>,
}

impl ReportEntry {
    /// The notes as the report shows them.
    pub open spec fn shown_notes(self) -> Seq<char> {
        match self.notes {
            Some(notes) => spec_truncate(notes@, NOTES_LIMIT as nat),
            None => spec_truncate(NO_NOTES@, NOTES_LIMIT as nat),
        }
    }

    /// The entry's line of the report, before alignment: date, project
    /// identifier, project name, time spent and notes, separated by tabs and
    /// ended by a newline.
    pub open spec fn spec_line(self) -> Seq<char> {
        self.spent_date@ + seq!['\t'] + signed_decimal(self.project_id as int) + seq!['\t']
            + spec_strip(self.project_name@) + seq!['\t'] + spec_hours(
            self.hours as int,
            self.minutes as int,
        ) + seq!['\t'] + self.shown_notes() + seq!['\n']
    }

    /// The entry's line of the report, before alignment.
    pub fn line(&self) -> (line: String)
        ensures
            line@ == self.spec_line(),
    {
        let mut line = self.spent_date.clone();
        push_char(&mut line, '\t');
        push_signed_decimal(&mut line, self.project_id as i64);
        push_char(&mut line, '\t');
        line.append(strip_newlines_and_tabs(self.project_name.as_str()).as_str());
        push_char(&mut line, '\t');
        line.append(hours_to_string(self.hours, self.minutes).as_str());
        push_char(&mut line, '\t');
        let notes = match &self.notes {
            Some(notes) => truncate_with_ellipsis(notes.as_str(), NOTES_LIMIT),
            None => truncate_with_ellipsis(NO_NOTES, NOTES_LIMIT),
        };
        line.append(notes.as_str());
        push_char(&mut line, '\n');
        line
    }
}

/// The lines of `entries`, one after the other.
pub open spec fn spec_report_text(entries: Seq<ReportEntry>) -> Seq<char>
    decreases entries.len(),
{
    if entries.len() == 0 {
        Seq::empty()
    } else {
        spec_report_text(entries.drop_last()) + entries.last().spec_line()
    }
}

/// The lines of `entries`, one after the other, before alignment.
pub fn report_text(entries: &Vec<ReportEntry>) -> (text: String)
    ensures
        text@ == spec_report_text(entries@),
{
    let mut text = String::new();
    let mut i: usize = 0;
    while i < entries.len()
        invariant
            i <= entries.len(),
            text@ == spec_report_text(entries@.take(i as int)),
        decreases entries.len() - i,
    {
        proof {
            assert(entries@.take(i + 1).drop_last() == entries@.take(i as int));
        }
        text.append(entries[i].line().as_str());
        i += 1;
    }
    proof {
        assert(entries@.take(entries.len() as int) == entries@);
    }
    text
}

/// The report on `entries`: their lines, with the columns aligned.
pub fn render_report(entries: &Vec<ReportEntry>) -> (report: String)
    ensures
        report@ == tab_aligned(spec_report_text(entries@)),
{
    let text = report_text(entries);
    align_columns(text.as_str())
}

} // verus!
