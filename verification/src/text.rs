//! File text handling: the line model, code-snippet extraction, and a
//! store that maps file paths to their text.

use vstd::prelude::*;
use vstd::string::StrSliceExecFns;
use vstd::string::StringExecFns;
use crate::paths::{split_sep, split_str, join_sep, same_path, paths_eq};
use crate::strutil::{dec_of, u64_to_string, char_push};
use crate::types::CodeSpan;

verus! {

/// A line with a trailing carriage return loses it.
pub open spec fn strip_cr(l: Seq<char>) -> Seq<char> {
    if l.len() > 0 && l.last() == '\r' {
        l.drop_last()
    } else {
        l
    }
}

/// `strip_cr` as a value, so that every use names one function.
pub open spec fn strip_cr_fn() -> spec_fn(Seq<char>) -> Seq<char> {
    |l: Seq<char>| strip_cr(l)
}

/// The lines of `t`: pieces split on newline, a final empty piece
/// dropped, and a trailing carriage return stripped from each line, as
/// the standard line iterator yields them.
pub open spec fn lines_of(t: Seq<char>) -> Seq<Seq<char>> {
    let parts = split_sep(t, '\n');
    let trimmed = if parts.last().len() == 0 {
        parts.drop_last()
    } else {
        parts
    };
    trimmed.map_values(strip_cr_fn())
}

/// The lines of `t`.
pub fn lines_vec(t: &str) -> (r: Vec<String>)
    ensures
        r@.map_values(|l: String| l@) == lines_of(t@),
{
    let mut parts = split_str(t, '\n');
    proof {
        crate::paths::lemma_split_sep_len(t@, '\n');
        assert(parts@.len() > 0);
    }
    let plen = parts.len();
    if parts[plen - 1].as_str().is_empty() {
        let _ = parts.pop();
        proof {
            assert(parts@.map_values(|l: String| l@) =~= split_sep(t@, '\n').drop_last());
        }
    }
    let ghost trimmed = parts@.map_values(|l: String| l@);
    let mut r: Vec<String> = Vec::new();
    let mut i: usize = 0;
    while i < parts.len()
        invariant
            parts@.map_values(|l: String| l@) == trimmed,
            i <= parts.len(),
            r@.len() == i,
            forall|k: int| 0 <= k < i ==> #[trigger] r@[k]@ == strip_cr(trimmed[k]),
        decreases parts.len() - i,
    {
        let line = &parts[i];
        proof {
            assert(trimmed[i as int] == line@);
        }
        let n = line.as_str().unicode_len();
        if n > 0 && line.as_str().get_char(n - 1) == '\r' {
            let stripped = line.as_str().substring_char(0, n - 1);
            proof {
                assert(stripped@ =~= strip_cr(trimmed[i as int]));
            }
            r.push(<String as StringExecFns>::from_str(stripped));
        } else {
            proof {
                assert(line@ =~= strip_cr(trimmed[i as int]));
            }
            r.push(line.clone());
        }
        i = i + 1;
    }
    proof {
        assert(r@.map_values(|l: String| l@) =~~= trimmed.map_values(strip_cr_fn()));
        assert(r@.map_values(|l: String| l@) =~~= lines_of(t@));
    }
    r
}

/// The snippet a finding carries for `span` in `text`: the covered
/// lines joined with newlines; line numbers outside the text are
/// clamped to it; a selection of more than ten lines keeps its first
/// five and reports how many lines were left out.
pub open spec fn snippet_of(text: Seq<char>, span: CodeSpan) -> Seq<char> {
    let lines = lines_of(text);
    let lo0: int = if span.start == 0 {
        0
    } else {
        span.start - 1
    };
    let lo: int = if lo0 > lines.len() {
        lines.len() as int
    } else {
        lo0
    };
    let hi0: int = if span.end > lines.len() {
        lines.len() as int
    } else {
        span.end as int
    };
    let hi: int = if hi0 < lo {
        lo
    } else {
        hi0
    };
    let sel = lines.subrange(lo, hi);
    if sel.len() > 10 {
        join_sep(sel.take(5), '\n') + "\n... ("@ + dec_of((sel.len() - 5) as nat)
            + " more lines)"@
    } else {
        join_sep(sel, '\n')
    }
}

/// Joins `lines[lo .. hi]` with newlines.
fn join_lines(lines: &Vec<String>, lo: usize, hi: usize) -> (r: String)
    requires
        lo <= hi <= lines@.len(),
    ensures
        r@ == join_sep(lines@.map_values(|l: String| l@).subrange(lo as int, hi as int), '\n'),
{
    let ghost lv = lines@.map_values(|l: String| l@);
    let mut out = String::new();
    let mut k: usize = lo;
    proof {
        assert(lv.subrange(lo as int, lo as int) =~= Seq::<Seq<char>>::empty());
    }
    while k < hi
        invariant
            lo <= k <= hi <= lines@.len(),
            lv == lines@.map_values(|l: String| l@),
            out@ == join_sep(lv.subrange(lo as int, k as int), '\n'),
        decreases hi - k,
    {
        if k > lo {
            char_push(&mut out, '\n');
        }
        out.append(lines[k].as_str());
        proof {
            let t = lv.subrange(lo as int, k + 1);
            assert(t.drop_last() =~= lv.subrange(lo as int, k as int));
            assert(t.last() == lv[k as int]);
        }
        k = k + 1;
    }
    out
}

/// The snippet a finding carries for `span` in `text`.
pub fn code_snippet(text: &str, span: &CodeSpan) -> (r: String)
    ensures
        r@ == snippet_of(text@, *span),
{
    let lines = lines_vec(text);
    let ghost lv = lines@.map_values(|l: String| l@);
    let nlines = lines.len();
    let lo0: usize = if span.start == 0 {
        0
    } else {
        (span.start - 1) as usize
    };
    let lo: usize = if lo0 > nlines {
        nlines
    } else {
        lo0
    };
    let hi0: usize = if span.end as usize > nlines {
        nlines
    } else {
        span.end as usize
    };
    let hi: usize = if hi0 < lo {
        lo
    } else {
        hi0
    };
    let count = hi - lo;
    if count > 10 {
        let mut out = join_lines(&lines, lo, lo + 5);
        proof {
            assert(lv.subrange(lo as int, hi as int).take(5) =~= lv.subrange(
                lo as int,
                lo + 5,
            ));
        }
        out.append("\n... (");
        let digits = u64_to_string((count - 5) as u64);
        out.append(digits.as_str());
        out.append(" more lines)");
        proof {
            assert(out@ =~= snippet_of(text@, *span));
        }
        out
    } else {
        let r = join_lines(&lines, lo, hi);
        proof {
            assert(r@ =~= snippet_of(text@, *span));
        }
        r
    }
}

/// The text of each scanned file, keyed by path; the key that was
/// inserted first wins.
pub struct FileTexts {
    pub entries: Vec<(String, String)>,
}

/// The text stored for `path`: that of the first entry naming the same
/// file, if any.
pub open spec fn text_lookup(entries: Seq<(String, String)>, path: Seq<char>) -> Option<Seq<char>>
    decreases entries.len(),
{
    if entries.len() == 0 {
        None
    } else if same_path(entries[0].0@, path) {
        Some(entries[0].1@)
    } else {
        text_lookup(entries.drop_first(), path)
    }
}

/// The text used for `path`: the stored text, or the empty text where
/// none was stored.
pub open spec fn text_of(entries: Seq<(String, String)>, path: Seq<char>) -> Seq<char> {
    match text_lookup(entries, path) {
        Some(t) => t,
        None => Seq::<char>::empty(),
    }
}

proof fn lemma_text_lookup_skip(entries: Seq<(String, String)>, path: Seq<char>, i: int)
    requires
        0 <= i <= entries.len(),
        forall|k: int| 0 <= k < i ==> !same_path(#[trigger] entries[k].0@, path),
    ensures
        text_lookup(entries, path) == text_lookup(entries.skip(i), path),
    decreases i,
{
    if i > 0 {
        assert(entries.skip(i - 1).drop_first() =~= entries.skip(i));
        lemma_text_lookup_skip(entries, path, i - 1);
    } else {
        assert(entries.skip(0) =~= entries);
    }
}

impl FileTexts {
    /// An empty store.
    pub fn new() -> (r: Self)
        ensures
            r.entries@.len() == 0,
    {
        FileTexts { entries: Vec::new() }
    }

    /// Records `text` as the content of `path`.
    pub fn insert(&mut self, path: String, text: String)
        ensures
            final(self).entries@ == old(self).entries@.push((path, text)),
    {
        self.entries.push((path, text));
    }

    /// The stored text of `path`, if any.
    pub fn lookup(&self, path: &str) -> (r: Option<&String>)
        ensures
            match r {
                Some(t) => text_lookup(self.entries@, path@) == Some(t@),
                None => text_lookup(self.entries@, path@) is None,
            },
    {
        let n = self.entries.len();
        let mut i: usize = 0;
        while i < n
            invariant
                n == self.entries@.len(),
                i <= n,
                forall|k: int| 0 <= k < i ==> !same_path(#[trigger] self.entries@[k].0@, path@),
            decreases n - i,
        {
            if paths_eq(self.entries[i].0.as_str(), path) {
                proof {
                    lemma_text_lookup_skip(self.entries@, path@, i as int);
                    assert(self.entries@.skip(i as int)[0] == self.entries@[i as int]);
                }
                return Some(&self.entries[i].1);
            }
            i = i + 1;
        }
        proof {
            lemma_text_lookup_skip(self.entries@, path@, n as int);
            assert(self.entries@.skip(n as int) =~= Seq::<(String, String)>::empty());
        }
        None
    }
}

} // verus!
