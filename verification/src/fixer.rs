//! Applying fixes: the line edits that comment out or drop flagged
//! spans, and the action names shown for each finding kind.
//!
//! Reading and writing the files happens outside; this module takes
//! the lines of a file and the flagged spans and computes the new
//! lines.

use vstd::prelude::*;
use vstd::string::StringExecFns;
use crate::types::{CodeSpan, DeadCodeKind};

verus! {

/// The first line (0-indexed) a span covers.
pub open spec fn span_first_line(span: CodeSpan) -> int {
    if span.start == 0 {
        0
    } else {
        span.start - 1
    }
}

/// Line `k` (0-indexed) lies in one of the spans.
pub open spec fn line_covered(spans: Seq<CodeSpan>, k: int) -> bool {
    exists|i: int|
        0 <= i < spans.len() && span_first_line(#[trigger] spans[i]) <= k < spans[i].end
}

/// The marker put before a commented-out line.
pub open spec fn comment_marker() -> Seq<char> {
    "// [clr] "@
}

/// The 0-indexed numbers of the lines that survive a hard fix: those
/// among the first `n` that no span covers.
pub open spec fn kept_line_numbers(spans: Seq<CodeSpan>, n: int) -> Seq<int>
    decreases n,
{
    if n <= 0 {
        Seq::<int>::empty()
    } else {
        kept_line_numbers(spans, n - 1) + (if line_covered(spans, n - 1) {
            Seq::<int>::empty()
        } else {
            seq![n - 1]
        })
    }
}

/// Whether line `k` lies in one of the spans.
fn is_line_covered(spans: &Vec<CodeSpan>, k: usize) -> (r: bool)
    ensures
        r == line_covered(spans@, k as int),
{
    let n = spans.len();
    let mut i: usize = 0;
    while i < n
        invariant
            n == spans@.len(),
            i <= n,
            forall|t: int|
                0 <= t < i ==> !(span_first_line(#[trigger] spans@[t]) <= k < spans@[t].end),
        decreases n - i,
    {
        let span = spans[i];
        let first: u32 = if span.start == 0 {
            0
        } else {
            span.start - 1
        };
        if (first as usize) <= k && (k as u64) < (span.end as u64) {
            proof {
                assert(span_first_line(spans@[i as int]) <= k < spans@[i as int].end);
            }
            return true;
        }
        i = i + 1;
    }
    false
}

/// The lines after a fix is applied. A soft fix comments the covered
/// lines out, marker first; a hard fix drops them.
pub fn apply_fixes_to_lines(lines: &Vec<String>, spans: &Vec<CodeSpan>, soft: bool) -> (r: Vec<
    String,
>)
    ensures
        soft ==> r@.len() == lines@.len(),
        soft ==> forall|k: int|
            0 <= k < lines@.len() ==> (#[trigger] r@[k])@ == (if line_covered(spans@, k) {
                comment_marker() + lines@[k]@
            } else {
                lines@[k]@
            }),
        !soft ==> ({
            let kept = kept_line_numbers(spans@, lines@.len() as int);
            &&& r@.len() == kept.len()
            &&& forall|t: int| 0 <= t < kept.len() ==> (#[trigger] r@[t])@ == lines@[kept[t]]@
        }),
{
    let n = lines.len();
    let mut out: Vec<String> = Vec::new();
    let mut k: usize = 0;
    if soft {
        while k < n
            invariant
                soft,
                n == lines@.len(),
                k <= n,
                out@.len() == k,
                forall|t: int|
                    0 <= t < k ==> (#[trigger] out@[t])@ == (if line_covered(spans@, t) {
                        comment_marker() + lines@[t]@
                    } else {
                        lines@[t]@
                    }),
            decreases n - k,
        {
            if is_line_covered(spans, k) {
                let mut line = crate::types::new_string("// [clr] ");
                line.append(lines[k].as_str());
                out.push(line);
            } else {
                out.push(lines[k].clone());
            }
            k = k + 1;
        }
        out
    } else {
        while k < n
            invariant
                !soft,
                n == lines@.len(),
                k <= n,
                out@.len() == kept_line_numbers(spans@, k as int).len(),
                forall|t: int|
                    0 <= t < out@.len() ==> (#[trigger] out@[t])@ == lines@[kept_line_numbers(
                        spans@,
                        k as int,
                    )[t]]@,
            decreases n - k,
        {
            let ghost kept = kept_line_numbers(spans@, k as int);
            if !is_line_covered(spans, k) {
                out.push(lines[k].clone());
                proof {
                    assert(kept_line_numbers(spans@, k + 1) =~= kept.push(k as int));
                }
            } else {
                proof {
                    assert(kept_line_numbers(spans@, k + 1) =~= kept);
                }
            }
            k = k + 1;
        }
        out
    }
}

/// The fixed action name shown for each finding kind.
pub open spec fn action_label(kind: DeadCodeKind) -> Seq<char> {
    match kind {
        DeadCodeKind::UnusedExport => "Remove export"@,
        DeadCodeKind::UnreachableFunction => "Remove function"@,
        DeadCodeKind::UnusedVariable => "Remove variable"@,
        DeadCodeKind::UnusedImport => "Remove import"@,
        DeadCodeKind::ZombieFile => "Delete file"@,
        DeadCodeKind::UnusedType => "Remove type"@,
        DeadCodeKind::UnusedClass => "Remove class"@,
        DeadCodeKind::UnusedEnum => "Remove enum"@,
        DeadCodeKind::DeadBranch => "Remove branch"@,
    }
}

/// The action a fix would take on a finding of `kind`.
pub fn kind_to_action(kind: &DeadCodeKind) -> (r: &'static str)
    ensures
        r@ == action_label(*kind),
{
    match kind {
        DeadCodeKind::UnusedExport => "Remove export",
        DeadCodeKind::UnreachableFunction => "Remove function",
        DeadCodeKind::UnusedVariable => "Remove variable",
        DeadCodeKind::UnusedImport => "Remove import",
        DeadCodeKind::ZombieFile => "Delete file",
        DeadCodeKind::UnusedType => "Remove type",
        DeadCodeKind::UnusedClass => "Remove class",
        DeadCodeKind::UnusedEnum => "Remove enum",
        DeadCodeKind::DeadBranch => "Remove branch",
    }
}

} // verus!
