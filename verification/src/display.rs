use vstd::prelude::*;

use crate::text::{chars_of, find_char, find_in, lemma_find_char, push_str, string_from_range, string_from_str};

verus! {

// ---------------------------------------------------------------------------
// Lines of output
// ---------------------------------------------------------------------------

/// One line of output, with the style the terminal shows it in.
#[derive(Debug, Clone, PartialEq)]
pub enum Line {
    /// Plain text.
    Text(String),
    /// A heading of level 1, 2 or 3.
    Heading(u8, String),
    /// A key and its value.
    Kv(String, String),
    /// A side note.
    Note(String),
    /// Something that worked or is there.
    Success(String),
    /// A warning.
    Warn(String),
    /// An error.
    Error(String),
    /// A success reported through the log.
    TraceSuccess(String),
    /// A warning reported through the log.
    TraceWarn(String),
    /// An error reported through the log.
    TraceError(String),
}

/// The mathematical value of a [`Line`].
pub enum LineView {
    Text(Seq<char>),
    Heading(u8, Seq<char>),
    Kv(Seq<char>, Seq<char>),
    Note(Seq<char>),
    Success(Seq<char>),
    Warn(Seq<char>),
    Error(Seq<char>),
    TraceSuccess(Seq<char>),
    TraceWarn(Seq<char>),
    TraceError(Seq<char>),
}

impl View for Line {
    type V = LineView;

    open spec fn view(&self) -> LineView {
        match self {
            Line::Text(t) => LineView::Text(t@),
            Line::Heading(l, t) => LineView::Heading(*l, t@),
            Line::Kv(k, v) => LineView::Kv(k@, v@),
            Line::Note(t) => LineView::Note(t@),
            Line::Success(t) => LineView::Success(t@),
            Line::Warn(t) => LineView::Warn(t@),
            Line::Error(t) => LineView::Error(t@),
            Line::TraceSuccess(t) => LineView::TraceSuccess(t@),
            Line::TraceWarn(t) => LineView::TraceWarn(t@),
            Line::TraceError(t) => LineView::TraceError(t@),
        }
    }
}

/// A line of output and how many levels it is indented.
#[derive(Debug, Clone, PartialEq)]
pub struct Entry {
    /// The indentation level.
    pub indent: usize,
    /// The line.
    pub line: Line,
}

/// The mathematical value of an [`Entry`].
pub struct EntryView {
    pub indent: nat,
    pub line: LineView,
}

impl View for Entry {
    type V = EntryView;

    open spec fn view(&self) -> EntryView {
        EntryView { indent: self.indent as nat, line: self.line@ }
    }
}

/// The mathematical value of a list of entries.
pub open spec fn entries_view(v: Seq<Entry>) -> Seq<EntryView> {
    v.map_values(|e: Entry| e@)
}

/// An entry at `indent` holding `line`.
pub open spec fn ev(indent: nat, line: LineView) -> EntryView {
    EntryView { indent, line }
}

/// Appends an entry.
pub fn push_entry(v: &mut Vec<Entry>, indent: usize, line: Line)
    ensures
        entries_view(final(v)@) == entries_view(old(v)@).push(ev(indent as nat, line@)),
{
    v.push(Entry { indent, line });
    assert(entries_view(v@) =~= entries_view(old(v)@).push(ev(indent as nat, line@)));
}

/// Appends a plain text entry.
pub fn push_text(v: &mut Vec<Entry>, indent: usize, t: &str)
    ensures
        entries_view(final(v)@) == entries_view(old(v)@).push(ev(indent as nat, LineView::Text(t@))),
{
    push_entry(v, indent, Line::Text(string_from_str(t)));
}

/// Appends a key-value entry.
pub fn push_kv(v: &mut Vec<Entry>, indent: usize, k: &str, val: &str)
    ensures
        entries_view(final(v)@) == entries_view(old(v)@).push(ev(indent as nat, LineView::Kv(k@, val@))),
{
    push_entry(v, indent, Line::Kv(string_from_str(k), string_from_str(val)));
}

/// Appends a success entry.
pub fn push_success(v: &mut Vec<Entry>, indent: usize, t: &str)
    ensures
        entries_view(final(v)@) == entries_view(old(v)@).push(ev(indent as nat, LineView::Success(t@))),
{
    push_entry(v, indent, Line::Success(string_from_str(t)));
}

/// Appends a heading entry.
pub fn push_heading(v: &mut Vec<Entry>, indent: usize, level: u8, t: &str)
    ensures
        entries_view(final(v)@) == entries_view(old(v)@).push(
            ev(indent as nat, LineView::Heading(level, t@)),
        ),
{
    push_entry(v, indent, Line::Heading(level, string_from_str(t)));
}

// ---------------------------------------------------------------------------
// Splitting text into lines
// ---------------------------------------------------------------------------

/// A line without the carriage return that ends it, if one does.
pub open spec fn strip_cr(l: Seq<char>) -> Seq<char> {
    if l.len() > 0 && l.last() == '\r' {
        l.drop_last()
    } else {
        l
    }
}

/// The lines of a text as std's `str::lines` gives them: split at each
/// `\n`, a `\r` just before it dropped, no line after a final `\n`.
pub open spec fn lines_spec(s: Seq<char>) -> Seq<Seq<char>>
    decreases s.len(),
{
    if s.len() == 0 {
        Seq::empty()
    } else {
        match find_char(s, '\n') {
            Some(i) => {
                proof {
                    lemma_find_char(s, '\n');
                }
                seq![strip_cr(s.subrange(0, i))] + lines_spec(s.subrange(i + 1, s.len() as int))
            },
            None => seq![s],
        }
    }
}

/// Splits a text into lines as std's `str::lines` does.
pub fn split_lines(s: &str) -> (r: Vec<String>)
    ensures
        r.deep_view() == lines_spec(s@),
{
    let v = chars_of(s);
    let n = v.len();
    let mut out: Vec<String> = Vec::new();
    let mut lo: usize = 0;
    assert(v@.subrange(0, n as int) =~= s@);
    assert(out.deep_view() + lines_spec(s@) =~= lines_spec(s@));
    while lo < n
        invariant
            lo <= n,
            n == v@.len(),
            v@ == s@,
            out.deep_view() + lines_spec(v@.subrange(lo as int, n as int)) == lines_spec(s@),
        decreases n - lo,
    {
        let ghost rest = v@.subrange(lo as int, n as int);
        match find_in(&v, lo, n, '\n') {
            Some(i) => {
                let end = if i > lo && v[i - 1] == '\r' {
                    i - 1
                } else {
                    i
                };
                let piece = string_from_range(&v, lo, end);
                proof {
                    assert(rest.subrange(0, i - lo) =~= v@.subrange(lo as int, i as int));
                    assert(strip_cr(rest.subrange(0, i - lo)) =~= v@.subrange(lo as int, end as int));
                    assert(rest.subrange(i - lo + 1, rest.len() as int) =~= v@.subrange(
                        i + 1,
                        n as int,
                    ));
                }
                let ghost before = out.deep_view();
                out.push(piece);
                proof {
                    assert(out.deep_view() =~= before.push(piece@));
                    assert(before.push(piece@) + lines_spec(v@.subrange(i + 1, n as int)) =~= before
                        + (seq![piece@] + lines_spec(v@.subrange(i + 1, n as int))));
                }
                lo = i + 1;
            },
            None => {
                let piece = string_from_range(&v, lo, n);
                let ghost before = out.deep_view();
                out.push(piece);
                proof {
                    assert(out.deep_view() =~= before.push(piece@));
                    assert(lines_spec(v@.subrange(n as int, n as int)) =~= Seq::<Seq<char>>::empty());
                    assert(before.push(piece@) =~= before + seq![rest]);
                    assert(lines_spec(v@.subrange(n as int, n as int)) =~= Seq::<Seq<char>>::empty());
                    assert(out.deep_view() + lines_spec(v@.subrange(n as int, n as int)) =~= out.deep_view());
                }
                lo = n;
            },
        }
    }
    proof {
        assert(lines_spec(v@.subrange(n as int, n as int)) =~= Seq::<Seq<char>>::empty());
        assert(out.deep_view() + Seq::<Seq<char>>::empty() =~= out.deep_view());
    }
    out
}

} // verus!
