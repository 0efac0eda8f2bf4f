//! A plain-string model of file paths.
//!
//! Paths are held as `String`s. Two paths name the same file when their
//! normal forms agree: repeated separators and interior `.` segments are
//! dropped, a leading `.` segment and a leading `/` are kept. This
//! mirrors how the standard library compares paths component by
//! component. `..` segments are kept as written.

use vstd::prelude::*;
use vstd::string::StrSliceExecFns;
use vstd::string::StringExecFns;
use crate::strutil::char_push;

verus! {

broadcast use vstd::seq_lib::group_filter_ensures;

/// The pieces of `s`, split on the separator `sep`. Splitting the
/// empty string gives one empty piece, as the standard splitter does.
pub open spec fn split_sep(s: Seq<char>, sep: char) -> Seq<Seq<char>>
    decreases s.len(),
{
    if s.len() == 0 {
        seq![Seq::<char>::empty()]
    } else {
        let rest = split_sep(s.drop_first(), sep);
        if s[0] == sep {
            seq![Seq::<char>::empty()] + rest
        } else {
            seq![seq![s[0]] + rest[0]] + rest.drop_first()
        }
    }
}

pub proof fn lemma_split_sep_len(s: Seq<char>, sep: char)
    ensures
        split_sep(s, sep).len() >= 1,
    decreases s.len(),
{
    if s.len() != 0 {
        lemma_split_sep_len(s.drop_first(), sep);
    }
}

/// The segments of `s`, split on `'/'`.
pub open spec fn split_slash(s: Seq<char>) -> Seq<Seq<char>> {
    split_sep(s, '/')
}

/// Appending one character extends the last piece, or opens a new one.
pub proof fn lemma_split_sep_push(s: Seq<char>, sep: char, c: char)
    ensures
        c == sep ==> split_sep(s.push(c), sep) == split_sep(s, sep).push(Seq::<char>::empty()),
        c != sep ==> split_sep(s.push(c), sep) == split_sep(s, sep).update(
            split_sep(s, sep).len() - 1,
            split_sep(s, sep).last().push(c),
        ),
    decreases s.len(),
{
    lemma_split_sep_len(s, sep);
    assert(split_sep(Seq::<char>::empty(), sep) =~= seq![Seq::<char>::empty()]);
    if s.len() == 0 {
        assert(s.push(c).drop_first() =~= Seq::<char>::empty());
        if c == sep {
            assert(split_sep(s.push(c), sep) =~= split_sep(s, sep).push(Seq::<char>::empty()));
        } else {
            assert(seq![c] + Seq::<char>::empty() =~= seq![c]);
            assert(split_sep(s, sep).last().push(c) =~= seq![c]);
            assert(split_sep(s.push(c), sep) =~= split_sep(s, sep).update(
                split_sep(s, sep).len() - 1,
                split_sep(s, sep).last().push(c),
            ));
        }
    } else {
        let t = s.drop_first();
        lemma_split_sep_len(t, sep);
        lemma_split_sep_push(t, sep, c);
        assert(s.push(c).drop_first() =~= t.push(c));
        assert(s.push(c)[0] == s[0]);
        let rest = split_sep(t, sep);
        let restp = split_sep(t.push(c), sep);
        if c == sep {
            assert(restp == rest.push(Seq::<char>::empty()));
            if s[0] == sep {
                assert(split_sep(s.push(c), sep) =~= split_sep(s, sep).push(Seq::<char>::empty()));
            } else {
                assert(rest.len() >= 1);
                assert(restp[0] == rest[0]);
                assert(restp.drop_first() =~= rest.drop_first().push(Seq::<char>::empty()));
                assert(split_sep(s.push(c), sep) =~= split_sep(s, sep).push(Seq::<char>::empty()));
            }
        } else {
            assert(restp == rest.update(rest.len() - 1, rest.last().push(c)));
            if s[0] == sep {
                assert(split_sep(s.push(c), sep) =~= split_sep(s, sep).update(
                    split_sep(s, sep).len() - 1,
                    split_sep(s, sep).last().push(c),
                ));
            } else {
                if rest.len() == 1 {
                    assert(restp[0] == rest[0].push(c));
                    assert(restp.drop_first() =~= rest.drop_first());
                    assert(split_sep(s, sep).last() == seq![s[0]] + rest[0]);
                    assert((seq![s[0]] + rest[0].push(c)) =~= (seq![s[0]] + rest[0]).push(c));
                    assert(split_sep(s.push(c), sep) =~= split_sep(s, sep).update(
                        split_sep(s, sep).len() - 1,
                        split_sep(s, sep).last().push(c),
                    ));
                } else {
                    assert(restp[0] == rest[0]);
                    assert(restp.drop_first() =~= rest.drop_first().update(
                        rest.drop_first().len() - 1,
                        rest.drop_first().last().push(c),
                    ));
                    assert(split_sep(s.push(c), sep) =~= split_sep(s, sep).update(
                        split_sep(s, sep).len() - 1,
                        split_sep(s, sep).last().push(c),
                    ));
                }
            }
        }
    }
}

/// A segment survives normalization when it is neither empty nor `.`.
pub open spec fn seg_kept(g: Seq<char>) -> bool {
    g.len() > 0 && g != seq!['.']
}

/// `seg_kept` as a value, so that every use names one function.
pub open spec fn seg_pred() -> spec_fn(Seq<char>) -> bool {
    |g: Seq<char>| seg_kept(g)
}

/// The segments that survive normalization, in order.
pub open spec fn kept_segs(segs: Seq<Seq<char>>) -> Seq<Seq<char>> {
    segs.filter(seg_pred())
}

proof fn lemma_filter_single(x: Seq<char>)
    ensures
        seg_kept(x) ==> seq![x].filter(seg_pred()) == seq![x],
        !seg_kept(x) ==> seq![x].filter(seg_pred()) == Seq::<Seq<char>>::empty(),
{
    reveal_with_fuel(Seq::filter, 3);
    let single = seq![x];
    assert(Seq::<Seq<char>>::empty().filter(seg_pred()) =~= Seq::<Seq<char>>::empty());
    assert(single.drop_last() =~= Seq::<Seq<char>>::empty());
    if seg_kept(x) {
        assert(single.filter(seg_pred()) =~= seq![x]);
    } else {
        assert(single.filter(seg_pred()) =~= Seq::<Seq<char>>::empty());
    }
}

/// Pieces joined with the separator `sep`.
pub open spec fn join_sep(segs: Seq<Seq<char>>, sep: char) -> Seq<char>
    decreases segs.len(),
{
    if segs.len() == 0 {
        Seq::<char>::empty()
    } else if segs.len() == 1 {
        segs[0]
    } else {
        join_sep(segs.drop_last(), sep) + seq![sep] + segs.last()
    }
}

/// Segments joined with `'/'`.
pub open spec fn join_segs(segs: Seq<Seq<char>>) -> Seq<char> {
    join_sep(segs, '/')
}

/// `s` names an absolute path.
pub open spec fn is_abs(s: Seq<char>) -> bool {
    s.len() > 0 && s[0] == '/'
}

/// `s` opens with a `.` segment.
pub open spec fn has_lead_dot(s: Seq<char>) -> bool {
    split_slash(s)[0] == seq!['.']
}

/// The normal form of `s`: kept segments joined with `'/'`, behind the
/// leading `/` or `.` marker of `s` where one is present.
pub open spec fn norm_of(s: Seq<char>) -> Seq<char> {
    let kept = kept_segs(split_slash(s));
    if is_abs(s) {
        seq!['/'] + join_segs(kept)
    } else if has_lead_dot(s) {
        if kept.len() == 0 {
            seq!['.']
        } else {
            seq!['.', '/'] + join_segs(kept)
        }
    } else {
        join_segs(kept)
    }
}

/// Two path strings name the same file.
pub open spec fn same_path(a: Seq<char>, b: Seq<char>) -> bool {
    norm_of(a) == norm_of(b)
}

/// Splits `p` on the separator `sep`.
pub fn split_str(p: &str, sep: char) -> (r: Vec<String>)
    ensures
        r@.map_values(|g: String| g@) == split_sep(p@, sep),
{
    let n = p.unicode_len();
    let mut r: Vec<String> = Vec::new();
    let mut cur = String::new();
    let mut i: usize = 0;
    proof {
        assert(p@.take(0) =~= Seq::<char>::empty());
        assert(r@.map_values(|g: String| g@).push(cur@) =~= split_sep(p@.take(0), sep));
    }
    while i < n
        invariant
            n == p@.len(),
            i <= n,
            r@.map_values(|g: String| g@).push(cur@) == split_sep(p@.take(i as int), sep),
        decreases n - i,
    {
        let c = p.get_char(i);
        proof {
            assert(p@.take(i + 1) =~= p@.take(i as int).push(p@[i as int]));
            lemma_split_sep_push(p@.take(i as int), sep, p@[i as int]);
            lemma_split_sep_len(p@.take(i as int), sep);
        }
        if c == sep {
            r.push(cur);
            cur = String::new();
            proof {
                assert(r@.map_values(|g: String| g@).push(cur@) =~= split_sep(p@.take(i + 1), sep));
            }
        } else {
            char_push(&mut cur, c);
            proof {
                let prev = split_sep(p@.take(i as int), sep);
                assert(split_sep(p@.take(i + 1), sep) =~= prev.update(
                    prev.len() - 1,
                    prev.last().push(p@[i as int]),
                ));
                assert(r@.map_values(|g: String| g@).push(cur@) =~= split_sep(p@.take(i + 1), sep));
            }
        }
        i = i + 1;
    }
    proof {
        assert(p@.take(n as int) =~= p@);
    }
    r.push(cur);
    proof {
        assert(r@.map_values(|g: String| g@) =~= split_sep(p@, sep));
    }
    r
}

/// The normal form of `p`.
pub fn normalize_path(p: &str) -> (r: String)
    ensures
        r@ == norm_of(p@),
{
    let segs = split_str(p, '/');
    let ghost segs_v = segs@.map_values(|g: String| g@);

    // Which segments survive.
    let mut kept: Vec<String> = Vec::new();
    let mut i: usize = 0;
    proof {
        assert(segs_v.take(0) =~= Seq::<Seq<char>>::empty());
        assert(kept@.map_values(|g: String| g@) =~= kept_segs(segs_v.take(0)));
    }
    while i < segs.len()
        invariant
            segs@.map_values(|g: String| g@) == segs_v,
            segs_v == split_slash(p@),
            i <= segs.len(),
            kept@.map_values(|g: String| g@) == kept_segs(segs_v.take(i as int)),
        decreases segs.len() - i,
    {
        let g = &segs[i];
        let keep = !g.as_str().is_empty() && !crate::strutil::str_eq(g.as_str(), ".");
        proof {
            assert(seg_kept(segs_v[i as int]) == keep) by {
                reveal_strlit(".");
                assert(("."@) =~= seq!['.']);
            }
            assert(segs_v.take(i + 1) =~= segs_v.take(i as int).push(segs_v[i as int]));
            assert(segs_v.take(i as int).push(segs_v[i as int]) =~= segs_v.take(i as int) + seq![
                segs_v[i as int],
            ]);
            Seq::filter_distributes_over_add(
                segs_v.take(i as int),
                seq![segs_v[i as int]],
                seg_pred(),
            );
            lemma_filter_single(segs_v[i as int]);
        }
        if keep {
            let copy = g.clone();
            kept.push(copy);
            proof {
                assert(kept@.map_values(|g: String| g@) =~= kept_segs(segs_v.take(i + 1)));
            }
        } else {
            proof {
                assert(kept@.map_values(|g: String| g@) =~= kept_segs(segs_v.take(i + 1)));
            }
        }
        i = i + 1;
    }
    proof {
        assert(segs_v.take(segs@.len() as int) =~= segs_v);
    }
    let ghost kept_v = kept_segs(segs_v);
    assert(kept@.map_values(|g: String| g@) == kept_v);

    // Join the kept segments behind the right marker.
    let abs = !p.is_empty() && p.get_char(0) == '/';
    let lead_dot = !abs && segs.len() > 0 && crate::strutil::str_eq(segs[0].as_str(), ".");
    proof {
        lemma_split_sep_len(p@, '/');
        assert(abs == is_abs(p@));
        if p@.len() == 0 {
            assert(split_slash(p@)[0] =~= Seq::<char>::empty());
        } else if p@[0] == '/' {
            assert(split_slash(p@)[0] =~= Seq::<char>::empty());
        }
        assert(lead_dot == (!is_abs(p@) && has_lead_dot(p@))) by {
            reveal_strlit(".");
            assert(("."@) =~= seq!['.']);
            if is_abs(p@) {
                assert(split_slash(p@)[0] != seq!['.']);
            }
        }
    }
    let mut out = String::new();
    if abs {
        char_push(&mut out, '/');
    } else if lead_dot && kept.len() == 0 {
        char_push(&mut out, '.');
        proof {
            assert(out@ =~= norm_of(p@));
        }
        return out;
    } else if lead_dot {
        char_push(&mut out, '.');
        char_push(&mut out, '/');
    }
    let ghost prefix = out@;
    let mut j: usize = 0;
    proof {
        assert(kept_v.take(0) =~= Seq::<Seq<char>>::empty());
        assert(out@ =~= prefix + join_segs(kept_v.take(0)));
    }
    while j < kept.len()
        invariant
            kept@.map_values(|g: String| g@) == kept_v,
            j <= kept.len(),
            out@ == prefix + join_segs(kept_v.take(j as int)),
        decreases kept.len() - j,
    {
        if j > 0 {
            char_push(&mut out, '/');
        }
        out.append(kept[j].as_str());
        proof {
            let t = kept_v.take(j + 1);
            assert(t.drop_last() =~= kept_v.take(j as int));
            assert(t.last() == kept_v[j as int]);
            if j == 0 {
                assert(join_segs(t) == t[0]);
                assert(out@ =~= prefix + join_segs(kept_v.take(j + 1)));
            } else {
                assert(join_segs(t) == join_segs(kept_v.take(j as int)) + seq!['/']
                    + kept_v[j as int]);
                assert(out@ =~= prefix + join_segs(kept_v.take(j + 1)));
            }
        }
        j = j + 1;
    }
    proof {
        assert(kept_v.take(kept@.len() as int) =~= kept_v);
        if is_abs(p@) {
            assert(out@ =~= norm_of(p@));
        } else if has_lead_dot(p@) {
            assert(kept_v.len() > 0);
            assert(out@ =~= norm_of(p@));
        } else {
            assert(prefix =~= Seq::<char>::empty());
            assert(out@ =~= norm_of(p@));
        }
    }
    out
}

/// `dir` and `tail` glued with a separator; an absolute `tail` stands
/// alone, as it does when the standard library joins paths.
pub open spec fn join_of(dir: Seq<char>, tail: Seq<char>) -> Seq<char> {
    if is_abs(tail) {
        tail
    } else if dir.len() == 0 {
        tail
    } else {
        dir + seq!['/'] + tail
    }
}

/// Joins `dir` and `tail`.
pub fn join_path(dir: &str, tail: &str) -> (r: String)
    ensures
        r@ == join_of(dir@, tail@),
{
    if !tail.is_empty() && tail.get_char(0) == '/' {
        let r = String::from_str(tail);
        proof {
            assert(r@ =~= join_of(dir@, tail@));
        }
        r
    } else if dir.is_empty() {
        let r = String::from_str(tail);
        proof {
            assert(r@ =~= join_of(dir@, tail@));
        }
        r
    } else {
        let mut r = String::from_str(dir);
        char_push(&mut r, '/');
        r.append(tail);
        proof {
            assert(r@ =~= join_of(dir@, tail@));
        }
        r
    }
}

/// Index of the last occurrence of `c` in `s`, or `-1`.
pub open spec fn last_index_of(s: Seq<char>, c: char) -> int
    decreases s.len(),
{
    if s.len() == 0 {
        -1
    } else if s.last() == c {
        s.len() - 1
    } else {
        last_index_of(s.drop_last(), c)
    }
}

pub proof fn lemma_last_index_of(s: Seq<char>, c: char)
    ensures
        -1 <= last_index_of(s, c) < s.len(),
        last_index_of(s, c) >= 0 ==> s[last_index_of(s, c)] == c,
        forall|k: int| last_index_of(s, c) < k < s.len() ==> s[k] != c,
    decreases s.len(),
{
    if s.len() > 0 && s.last() != c {
        lemma_last_index_of(s.drop_last(), c);
        assert(forall|k: int| 0 <= k < s.len() - 1 ==> s.drop_last()[k] == s[k]);
    }
}

/// Finds the last occurrence of `c` in `s`.
fn find_last(s: &str, c: char) -> (r: Option<usize>)
    ensures
        match r {
            Some(i) => last_index_of(s@, c) == i as int,
            None => last_index_of(s@, c) == -1,
        },
{
    let n = s.unicode_len();
    let mut i: usize = n;
    while i > 0
        invariant
            n == s@.len(),
            i <= n,
            forall|k: int| i <= k < n ==> s@[k] != c,
        decreases i,
    {
        i = i - 1;
        if s.get_char(i) == c {
            proof {
                lemma_last_index_of(s@, c);
            }
            return Some(i);
        }
    }
    proof {
        lemma_last_index_of(s@, c);
    }
    None
}

/// The directory holding `p`, on normal forms: everything before the
/// last separator. The root and the empty path have no parent.
pub open spec fn parent_of(s: Seq<char>) -> Option<Seq<char>> {
    if s.len() == 0 || s == seq!['/'] {
        None
    } else {
        let i = last_index_of(s, '/');
        if i == -1 {
            Some(Seq::<char>::empty())
        } else if i == 0 {
            Some(seq!['/'])
        } else {
            Some(s.take(i))
        }
    }
}

/// The directory part of `p`.
pub fn parent_path(p: &str) -> (r: Option<String>)
    ensures
        match r {
            Some(s) => parent_of(p@) == Some(s@),
            None => parent_of(p@) is None,
        },
{
    let n = p.unicode_len();
    if n == 0 {
        return None;
    }
    if n == 1 && p.get_char(0) == '/' {
        proof {
            assert(p@ =~= seq!['/']);
        }
        return None;
    }
    proof {
        assert(p@ != seq!['/']) by {
            if p@.len() == 1 {
                assert(p@[0] != '/');
            }
        }
    }
    match find_last(p, '/') {
        None => Some(String::new()),
        Some(i) => {
            proof {
                lemma_last_index_of(p@, '/');
            }
            if i == 0 {
                let mut s = String::new();
                char_push(&mut s, '/');
                proof {
                    assert(s@ =~= seq!['/']);
                }
                Some(s)
            } else {
                let s = p.substring_char(0, i);
                proof {
                    assert(s@ =~= p@.take(i as int));
                }
                Some(String::from_str(s))
            }
        },
    }
}

/// The last path segment of `s`.
pub open spec fn last_seg_of(s: Seq<char>) -> Seq<char> {
    s.skip(last_index_of(s, '/') + 1)
}

/// The file name of `s` without its extension: the part of the last
/// segment before its final dot, the whole segment when the dot opens it
/// or is absent.
pub open spec fn stem_of(s: Seq<char>) -> Seq<char> {
    let seg = last_seg_of(s);
    let d = last_index_of(seg, '.');
    if d <= 0 {
        seg
    } else {
        seg.take(d)
    }
}

/// The extension of `s`: the part of the last segment after its final
/// dot, absent when the dot opens the segment or is missing.
pub open spec fn ext_of(s: Seq<char>) -> Option<Seq<char>> {
    let seg = last_seg_of(s);
    let d = last_index_of(seg, '.');
    if d <= 0 {
        None
    } else {
        Some(seg.skip(d + 1))
    }
}

/// The last path segment of `p`.
pub fn last_seg(p: &str) -> (r: String)
    ensures
        r@ == last_seg_of(p@),
{
    let n = p.unicode_len();
    match find_last(p, '/') {
        None => {
            let r = String::from_str(p);
            proof {
                assert(p@.skip(0) =~= p@);
            }
            r
        },
        Some(i) => {
            proof {
                lemma_last_index_of(p@, '/');
            }
            let s = p.substring_char(i + 1, n);
            proof {
                assert(s@ =~= p@.skip(i + 1));
            }
            String::from_str(s)
        },
    }
}

/// The file name of `p` without its extension.
pub fn file_stem(p: &str) -> (r: String)
    ensures
        r@ == stem_of(p@),
{
    let seg = last_seg(p);
    match find_last(seg.as_str(), '.') {
        None => seg,
        Some(d) => {
            proof {
                lemma_last_index_of(seg@, '.');
            }
            if d == 0 {
                seg
            } else {
                let s = seg.as_str().substring_char(0, d);
                proof {
                    assert(s@ =~= seg@.take(d as int));
                }
                String::from_str(s)
            }
        },
    }
}

/// The extension of `p`, when it has one.
pub fn extension(p: &str) -> (r: Option<String>)
    ensures
        match r {
            Some(e) => ext_of(p@) == Some(e@),
            None => ext_of(p@) is None,
        },
{
    let seg = last_seg(p);
    let m = seg.as_str().unicode_len();
    match find_last(seg.as_str(), '.') {
        None => None,
        Some(d) => {
            proof {
                lemma_last_index_of(seg@, '.');
            }
            if d == 0 {
                None
            } else {
                let s = seg.as_str().substring_char(d + 1, m);
                proof {
                    assert(s@ =~= seg@.skip(d + 1));
                }
                Some(String::from_str(s))
            }
        },
    }
}

/// The path that `pathdiff::diff_paths` maps `path` and `base` to; it
/// depends on the two arguments alone.
pub uninterp spec fn rel_path_of(path: Seq<char>, base: Seq<char>) -> Option<Seq<char>>;

/// `path` shown relative to `base` where that is possible, as written
/// otherwise.
pub open spec fn rel_display_of(path: Seq<char>, base: Seq<char>) -> Seq<char> {
    match rel_path_of(path, base) {
        Some(s) => s,
        None => path,
    }
}

/// Relies on `pathdiff::diff_paths`: constructs the relative path from
/// `base` to `path`, a function of the two arguments alone.
#[verifier::external_body]
fn rel_path_raw(path: &str, base: &str) -> (r: Option<String>)
    ensures
        match r {
            Some(s) => rel_path_of(path@, base@) == Some(s@),
            None => rel_path_of(path@, base@) is None,
        },
{
    pathdiff::diff_paths(std::path::Path::new(path), std::path::Path::new(base)).map(
        |p: std::path::PathBuf| p.to_string_lossy().into_owned(),
    )
}

/// Whether `a` and `b` name the same file.
pub fn paths_eq(a: &str, b: &str) -> (r: bool)
    ensures
        r == same_path(a@, b@),
{
    let na = normalize_path(a);
    let nb = normalize_path(b);
    na == nb
}

/// `path` shown relative to `base` where that is possible.
pub fn rel_display(path: &str, base: &str) -> (r: String)
    ensures
        r@ == rel_display_of(path@, base@),
{
    match rel_path_raw(path, base) {
        Some(s) => s,
        None => String::from_str(path),
    }
}

} // verus!
