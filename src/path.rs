//! How a source path becomes a path inside the image.
//!
//! The rule, for paths written in the Windows convention:
//! - the text is cut into segments at every `\` and `/`;
//! - a path that begins with two separators (`\\server\share`, `\\?\C:`,
//!   `\\.\device`) spends its first four segments on that prefix, and a
//!   verbatim UNC path (`\\?\UNC\server\share`) its first six;
//! - of the remaining segments, those that name an entry are kept: not empty,
//!   not `.` or `..`, and holding no `:` (which marks a drive such as `C:`);
//! - the kept segments, joined by `\`, form the path inside the image.
//! The ancestors of a path are the paths formed by its first `k` kept segments,
//! for every `k` from one to the number of kept segments less one.
use vstd::prelude::*;
use crate::text::{chars_of, starts_with_at, string_from_chars, strip_prefix_all};

verus! {

/// Separators of the Windows path convention.
pub open spec fn is_separator(c: char) -> bool {
    c == '\\' || c == '/'
}

/// The text cut at every separator; empty segments are kept.
pub open spec fn segments(s: Seq<char>) -> Seq<Seq<char>>
    decreases s.len(),
{
    if s.len() == 0 {
        seq![Seq::<char>::empty()]
    } else {
        let prev = segments(s.drop_last());
        if is_separator(s.last()) {
            prev.push(Seq::<char>::empty())
        } else {
            prev.update(prev.len() - 1, prev.last().push(s.last()))
        }
    }
}

/// Where each segment of `segments(s)` begins in `s`.
pub open spec fn segment_starts(s: Seq<char>) -> Seq<int>
    decreases s.len(),
{
    if s.len() == 0 {
        seq![0int]
    } else {
        let prev = segment_starts(s.drop_last());
        if is_separator(s.last()) {
            prev.push(s.len() as int)
        } else {
            prev
        }
    }
}

pub proof fn lemma_segments_len(s: Seq<char>)
    ensures
        segments(s).len() >= 1,
        segment_starts(s).len() == segments(s).len(),
    decreases s.len(),
{
    if s.len() > 0 {
        lemma_segments_len(s.drop_last());
    }
}

pub open spec fn views(v: Seq<Vec<char>>) -> Seq<Seq<char>> {
    v.map_values(|x: Vec<char>| x@)
}

/// Cuts `s` into its segments and their start positions.
fn split_segments(s: &Vec<char>) -> (r: (Vec<Vec<char>>, Vec<usize>))
    ensures
        views(r.0@) == segments(s@),
        r.1@.len() == r.0@.len(),
        forall|j: int| 0 <= j < r.1@.len() ==> r.1@[j] as int == segment_starts(s@)[j],
{
    let mut done: Vec<Vec<char>> = Vec::new();
    let mut starts: Vec<usize> = Vec::new();
    starts.push(0);
    let mut cur: Vec<char> = Vec::new();
    let mut i: usize = 0;
    proof {
        assert(s@.take(0) =~= Seq::<char>::empty());
        assert(views(done@).push(cur@) =~= segments(s@.take(0)));
    }
    while i < s.len()
        invariant
            0 <= i <= s@.len(),
            views(done@).push(cur@) == segments(s@.take(i as int)),
            starts@.len() == done@.len() + 1,
            forall|j: int|
                0 <= j < starts@.len() ==> starts@[j] as int == segment_starts(s@.take(i as int))[j],
        decreases s@.len() - i,
    {
        let c = s[i];
        let ghost before = s@.take(i as int);
        proof {
            assert(s@.take(i + 1).drop_last() =~= before);
            lemma_segments_len(before);
        }
        if c == '\\' || c == '/' {
            proof {
                assert(views(done@.push(cur)) =~= views(done@).push(cur@));
            }
            done.push(cur);
            cur = Vec::new();
            starts.push(i + 1);
            proof {
                assert(views(done@).push(cur@) =~= segments(s@.take(i + 1)));
            }
        } else {
            cur.push(c);
            proof {
                assert(views(done@).push(cur@) =~= segments(s@.take(i + 1)));
            }
        }
        i += 1;
    }
    proof {
        assert(s@.take(s@.len() as int) =~= s@);
        assert(views(done@.push(cur)) =~= views(done@).push(cur@));
    }
    done.push(cur);
    (done, starts)
}


pub proof fn lemma_segment_bounds(s: Seq<char>)
    ensures
        forall|i: int|
            0 <= i < segments(s).len() ==> 0 <= #[trigger] segment_starts(s)[i] && segment_starts(
                s,
            )[i] + segments(s)[i].len() <= s.len(),
    decreases s.len(),
{
    lemma_segments_len(s);
    if s.len() > 0 {
        lemma_segment_bounds(s.drop_last());
        lemma_segments_len(s.drop_last());
    }
}

/// A path that begins with two separators: a UNC, verbatim or device path.
pub open spec fn is_device_path(s: Seq<char>) -> bool {
    s.len() >= 2 && is_separator(s[0]) && is_separator(s[1])
}

/// How many leading segments form the path's prefix.
pub open spec fn prefix_segments(s: Seq<char>) -> int {
    let g = segments(s);
    if is_device_path(s) {
        if g.len() > 3 && g[2] =~= seq!['?'] && g[3] =~= seq!['U', 'N', 'C'] {
            6
        } else {
            4
        }
    } else {
        0
    }
}

/// A segment that names an entry.
pub open spec fn is_name(g: Seq<char>) -> bool {
    &&& g.len() > 0
    &&& !(g.len() == 1 && g[0] == '.')
    &&& !(g.len() == 2 && g[0] == '.' && g[1] == '.')
    &&& forall|i: int| 0 <= i < g.len() ==> g[i] != ':'
}

pub open spec fn is_name_at(s: Seq<char>, i: int) -> bool {
    i >= prefix_segments(s) && is_name(segments(s)[i])
}

/// The indices, below `n`, of the segments of `s` that are kept.
pub open spec fn name_indices_upto(s: Seq<char>, n: int) -> Seq<int>
    decreases n,
{
    if n <= 0 {
        Seq::empty()
    } else {
        let prev = name_indices_upto(s, n - 1);
        if is_name_at(s, n - 1) {
            prev.push(n - 1)
        } else {
            prev
        }
    }
}

pub open spec fn name_indices(s: Seq<char>) -> Seq<int> {
    name_indices_upto(s, segments(s).len() as int)
}

/// The components of `s` that the image keeps, in order.
pub open spec fn components(s: Seq<char>) -> Seq<Seq<char>> {
    name_indices(s).map_values(|i: int| segments(s)[i])
}

/// Parts joined by `\`.
pub open spec fn join(parts: Seq<Seq<char>>) -> Seq<char>
    decreases parts.len(),
{
    if parts.len() == 0 {
        Seq::empty()
    } else if parts.len() == 1 {
        parts[0]
    } else {
        join(parts.drop_last()) + seq!['\\'] + parts.last()
    }
}

/// The path inside the image of the source path `s`.
pub open spec fn relative_path_of(s: Seq<char>) -> Seq<char> {
    join(components(s))
}

/// The number of strict ancestors of `s` inside the image.
pub open spec fn ancestor_count(s: Seq<char>) -> int {
    if components(s).len() == 0 {
        0
    } else {
        components(s).len() - 1
    }
}

/// The image path of the ancestor of `s` formed by its first `k` components.
pub open spec fn ancestor_relative(s: Seq<char>, k: int) -> Seq<char> {
    join(components(s).take(k))
}

/// The source path of that ancestor: `s` up to the end of its `k`-th component.
pub open spec fn ancestor_source(s: Seq<char>, k: int) -> Seq<char> {
    let i = name_indices(s)[k - 1];
    s.take(segment_starts(s)[i] + segments(s)[i].len())
}

pub proof fn lemma_name_indices_upto(s: Seq<char>, n: int)
    requires
        0 <= n,
    ensures
        name_indices_upto(s, n).len() <= n,
        forall|j: int|
            0 <= j < name_indices_upto(s, n).len() ==> 0 <= #[trigger] name_indices_upto(s, n)[j]
                < n && is_name_at(s, name_indices_upto(s, n)[j]),
        forall|j1: int, j2: int|
            0 <= j1 < j2 < name_indices_upto(s, n).len() ==> name_indices_upto(s, n)[j1]
                < name_indices_upto(s, n)[j2],
    decreases n,
{
    if n > 0 {
        lemma_name_indices_upto(s, n - 1);
    }
}

fn is_name_exec(g: &Vec<char>) -> (r: bool)
    ensures
        r == is_name(g@),
{
    if g.len() == 0 {
        return false;
    }
    if g.len() == 1 && g[0] == '.' {
        return false;
    }
    if g.len() == 2 && g[0] == '.' && g[1] == '.' {
        return false;
    }
    let mut i: usize = 0;
    while i < g.len()
        invariant
            i <= g@.len(),
            forall|j: int| 0 <= j < i ==> g@[j] != ':',
        decreases g@.len() - i,
    {
        if g[i] == ':' {
            return false;
        }
        i += 1;
    }
    true
}

fn prefix_segments_exec(s: &Vec<char>, segs: &Vec<Vec<char>>) -> (r: usize)
    requires
        views(segs@) == segments(s@),
    ensures
        r as int == prefix_segments(s@),
{
    if s.len() >= 2 && (s[0] == '\\' || s[0] == '/') && (s[1] == '\\' || s[1] == '/') {
        if segs.len() > 3 {
            let g2 = &segs[2];
            let g3 = &segs[3];
            assert(g2@ == segments(s@)[2]);
            assert(g3@ == segments(s@)[3]);
            if g2.len() == 1 && g2[0] == '?' && g3.len() == 3 && g3[0] == 'U' && g3[1] == 'N'
                && g3[2] == 'C' {
                assert(g2@ =~= seq!['?']);
                assert(g3@ =~= seq!['U', 'N', 'C']);
                return 6;
            }
        }
        4
    } else {
        0
    }
}

fn copy_chars(v: &Vec<char>) -> (r: Vec<char>)
    ensures
        r@ == v@,
{
    let mut r: Vec<char> = Vec::new();
    let mut i: usize = 0;
    while i < v.len()
        invariant
            i <= v@.len(),
            r@ == v@.take(i as int),
        decreases v@.len() - i,
    {
        r.push(v[i]);
        i += 1;
        proof {
            assert(r@ =~= v@.take(i as int));
        }
    }
    proof {
        assert(v@.take(v@.len() as int) =~= v@);
    }
    r
}

fn prefix_chars(v: &Vec<char>, n: usize) -> (r: Vec<char>)
    requires
        n <= v@.len(),
    ensures
        r@ == v@.take(n as int),
{
    let mut r: Vec<char> = Vec::new();
    let mut i: usize = 0;
    while i < n
        invariant
            i <= n <= v@.len(),
            r@ == v@.take(i as int),
        decreases n - i,
    {
        r.push(v[i]);
        i += 1;
        proof {
            assert(r@ =~= v@.take(i as int));
        }
    }
    r
}

fn append_chars(out: &mut Vec<char>, g: &Vec<char>)
    ensures
        final(out)@ == old(out)@ + g@,
{
    let mut i: usize = 0;
    while i < g.len()
        invariant
            i <= g@.len(),
            out@ == old(out)@ + g@.take(i as int),
        decreases g@.len() - i,
    {
        out.push(g[i]);
        i += 1;
        proof {
            assert(out@ =~= old(out)@ + g@.take(i as int));
        }
    }
    proof {
        assert(g@.take(g@.len() as int) =~= g@);
    }
}

/// The outcome of resolving a path's text: its image path and, for each strict
/// ancestor from the outermost in, the ancestor's source and image paths.
pub struct ResolvedText {
    pub relative: Vec<char>,
    pub ancestor_sources: Vec<Vec<char>>,
    pub ancestor_relatives: Vec<Vec<char>>,
}

/// Resolves the text of a source path by the rule of this module.
pub fn resolve_text(s: &Vec<char>) -> (r: ResolvedText)
    ensures
        r.relative@ == relative_path_of(s@),
        r.ancestor_sources@.len() == ancestor_count(s@),
        r.ancestor_relatives@.len() == ancestor_count(s@),
        forall|j: int|
            0 <= j < ancestor_count(s@) ==> #[trigger] r.ancestor_sources@[j]@ == ancestor_source(
                s@,
                j + 1,
            ) && r.ancestor_relatives@[j]@ == ancestor_relative(s@, j + 1),
{
    let (segs, starts) = split_segments(s);
    let pc = prefix_segments_exec(s, &segs);
    let ghost sv = s@;
    let ghost g = segments(sv);
    proof {
        lemma_segments_len(sv);
        lemma_segment_bounds(sv);
    }
    let mut idx: Vec<usize> = Vec::new();
    let mut i: usize = 0;
    while i < segs.len()
        invariant
            i <= segs@.len(),
            views(segs@) == g,
            g == segments(sv),
            pc as int == prefix_segments(sv),
            idx@.len() == name_indices_upto(sv, i as int).len(),
            forall|j: int| 0 <= j < idx@.len() ==> idx@[j] as int == name_indices_upto(sv, i as int)[j],
        decreases segs@.len() - i,
    {
        let named = is_name_exec(&segs[i]);
        proof {
            assert(segs@[i as int]@ == g[i as int]);
        }
        if i >= pc && named {
            idx.push(i);
        }
        i += 1;
    }
    let ghost ni = name_indices(sv);
    let ghost comps = components(sv);
    proof {
        lemma_name_indices_upto(sv, g.len() as int);
    }
    let n = idx.len();
    let mut out: Vec<char> = Vec::new();
    let mut srcs: Vec<Vec<char>> = Vec::new();
    let mut rels: Vec<Vec<char>> = Vec::new();
    let mut k: usize = 0;
    proof {
        assert(comps.take(0) =~= Seq::<Seq<char>>::empty());
    }
    while k < n
        invariant
            n == idx@.len(),
            n == ni.len(),
            comps.len() == n,
            ni == name_indices(sv),
            comps == components(sv),
            views(segs@) == g,
            g == segments(sv),
            starts@.len() == g.len(),
            segment_starts(sv).len() == g.len(),
            forall|j: int| 0 <= j < starts@.len() ==> starts@[j] as int == segment_starts(sv)[j],
            forall|j: int| 0 <= j < n ==> idx@[j] as int == ni[j],
            forall|j: int| 0 <= j < n ==> 0 <= #[trigger] ni[j] < g.len(),
            forall|i: int|
                0 <= i < g.len() ==> 0 <= #[trigger] segment_starts(sv)[i] && segment_starts(
                    sv,
                )[i] + g[i].len() <= sv.len(),
            sv == s@,
            k <= n,
            out@ == join(comps.take(k as int)),
            srcs@.len() == rels@.len(),
            srcs@.len() == if k == 0 {
                0
            } else {
                k - 1
            },
            forall|j: int|
                0 <= j < srcs@.len() ==> #[trigger] srcs@[j]@ == ancestor_source(sv, j + 1)
                    && rels@[j]@ == ancestor_relative(sv, j + 1),
        decreases n - k,
    {
        proof {
            assert(0 <= ni[k as int] < g.len());
        }
        if k > 0 {
            let prev = idx[k - 1];
            proof {
                assert(0 <= ni[k - 1] < g.len());
                assert(0 <= segment_starts(sv)[prev as int]);
                assert(segs@[prev as int]@ == g[prev as int]);
                assert(segment_starts(sv)[prev as int] + g[prev as int].len() <= sv.len());
            }
            let total = s.len();
            let a = starts[prev];
            let b = segs[prev].len();
            assert(a as int + b as int <= total);
            let end = a + b;
            proof {
                assert(segs@[prev as int]@ == g[prev as int]);
            }
            let src = prefix_chars(s, end);
            let rel = copy_chars(&out);
            proof {
                assert(src@ == ancestor_source(sv, k as int));
                assert(rel@ == ancestor_relative(sv, k as int));
            }
            let ghost srcs_before = srcs@;
            let ghost rels_before = rels@;
            srcs.push(src);
            rels.push(rel);
            proof {
                assert forall|j: int| 0 <= j < srcs@.len() implies #[trigger] srcs@[j]@
                    == ancestor_source(sv, j + 1) && rels@[j]@ == ancestor_relative(sv, j + 1) by {
                    if j < srcs_before.len() {
                        assert(srcs@[j] == srcs_before[j]);
                        assert(rels@[j] == rels_before[j]);
                    }
                }
            }
            out.push('\\');
        }
        let seg = &segs[idx[k]];
        proof {
            assert(seg@ == g[ni[k as int]]);
            assert(comps[k as int] == g[ni[k as int]]);
            assert(comps.take(k + 1).drop_last() =~= comps.take(k as int));
        }
        append_chars(&mut out, seg);
        k += 1;
        proof {
            if k == 1 {
                assert(out@ =~= join(comps.take(1)));
            } else {
                assert(out@ =~= join(comps.take(k as int)));
            }
        }
    }
    proof {
        assert(comps.take(n as int) =~= comps);
    }
    ResolvedText { relative: out, ancestor_sources: srcs, ancestor_relatives: rels }
}

/// No segment holds a separator.
pub proof fn lemma_segments_plain(s: Seq<char>)
    ensures
        forall|i: int, j: int|
            0 <= i < segments(s).len() && 0 <= j < segments(s)[i].len() ==> !is_separator(
                #[trigger] segments(s)[i][j],
            ),
    decreases s.len(),
{
    lemma_segments_len(s);
    if s.len() > 0 {
        lemma_segments_plain(s.drop_last());
        lemma_segments_len(s.drop_last());
        let prev = segments(s.drop_last());
        if !is_separator(s.last()) {
            assert forall|i: int, j: int|
                0 <= i < segments(s).len() && 0 <= j < segments(s)[i].len() implies !is_separator(
                #[trigger] segments(s)[i][j],
            ) by {
                if i < prev.len() - 1 {
                    assert(segments(s)[i] == prev[i]);
                } else if j < prev.last().len() {
                    assert(segments(s)[i][j] == prev[i][j]);
                }
            }
        } else {
            assert forall|i: int, j: int|
                0 <= i < segments(s).len() && 0 <= j < segments(s)[i].len() implies !is_separator(
                #[trigger] segments(s)[i][j],
            ) by {
                if i < prev.len() {
                    assert(segments(s)[i] == prev[i]);
                }
            }
        }
    }
}

pub open spec fn has_no_separator(w: Seq<char>) -> bool {
    forall|j: int| 0 <= j < w.len() ==> !is_separator(w[j])
}

/// Text without separators, after a separator, forms one more segment.
pub proof fn lemma_segments_after_separator(a: Seq<char>, w: Seq<char>)
    requires
        has_no_separator(w),
    ensures
        segments(a + seq!['\\'] + w) == segments(a).push(w),
    decreases w.len(),
{
    let t = a + seq!['\\'] + w;
    if w.len() == 0 {
        assert(t.drop_last() =~= a);
        assert(w =~= Seq::<char>::empty());
    } else {
        let w0 = w.drop_last();
        lemma_segments_after_separator(a, w0);
        assert(t.drop_last() =~= a + seq!['\\'] + w0);
        assert(t.last() == w.last());
        assert(w0.push(w.last()) =~= w);
        assert(segments(t) =~= segments(a).push(w));
    }
}

/// Text without separators is one segment.
pub proof fn lemma_segments_single(w: Seq<char>)
    requires
        has_no_separator(w),
    ensures
        segments(w) == seq![w],
    decreases w.len(),
{
    if w.len() == 0 {
        assert(w =~= Seq::<char>::empty());
    } else {
        let w0 = w.drop_last();
        lemma_segments_single(w0);
        assert(w0.push(w.last()) =~= w);
        assert(segments(w) =~= seq![w]);
    }
}

/// Names joined by `\` cut back into the same names.
pub proof fn lemma_segments_of_join(parts: Seq<Seq<char>>)
    requires
        parts.len() > 0,
        forall|i: int| 0 <= i < parts.len() ==> has_no_separator(#[trigger] parts[i]),
    ensures
        segments(join(parts)) == parts,
    decreases parts.len(),
{
    if parts.len() == 1 {
        lemma_segments_single(parts[0]);
        assert(seq![parts[0]] =~= parts);
    } else {
        let init = parts.drop_last();
        lemma_segments_of_join(init);
        lemma_segments_after_separator(join(init), parts.last());
        assert(init.push(parts.last()) =~= parts);
    }
}

pub proof fn lemma_join_first(parts: Seq<Seq<char>>)
    requires
        parts.len() > 0,
        parts[0].len() > 0,
    ensures
        join(parts).len() > 0,
        join(parts)[0] == parts[0][0],
    decreases parts.len(),
{
    if parts.len() > 1 {
        let init = parts.drop_last();
        lemma_join_first(init);
    }
}

/// Every segment of `s` is kept.
pub proof fn lemma_all_kept(s: Seq<char>, n: int)
    requires
        0 <= n <= segments(s).len(),
        forall|i: int| 0 <= i < segments(s).len() ==> is_name_at(s, i),
    ensures
        name_indices_upto(s, n) == Seq::new(n as nat, |i: int| i),
    decreases n,
{
    if n > 0 {
        lemma_all_kept(s, n - 1);
        assert(name_indices_upto(s, n) =~= Seq::new(n as nat, |i: int| i));
    }
}

/// The components of a path are names.
pub proof fn lemma_components_are_names(s: Seq<char>)
    ensures
        forall|i: int|
            0 <= i < components(s).len() ==> is_name(#[trigger] components(s)[i])
                && has_no_separator(components(s)[i]),
{
    lemma_segments_len(s);
    lemma_segments_plain(s);
    lemma_name_indices_upto(s, segments(s).len() as int);
    assert forall|i: int| 0 <= i < components(s).len() implies is_name(
        #[trigger] components(s)[i],
    ) && has_no_separator(components(s)[i]) by {
        let k = name_indices(s)[i];
        assert(components(s)[i] == segments(s)[k]);
        assert forall|j: int| 0 <= j < segments(s)[k].len() implies !is_separator(
            segments(s)[k][j],
        ) by {
            assert(!is_separator(segments(s)[k][j]));
        }
    }
}

/// A path inside the image, of the object or of any of its ancestors, is
/// canonical: it is not empty, does not begin with a separator, and holds
/// nothing but names, so that no root, drive, prefix, `.` or `..` is left in
/// it and resolving it again gives it back.
pub proof fn lemma_image_paths_are_canonical(s: Seq<char>, k: int)
    requires
        1 <= k <= components(s).len(),
    ensures
        ({
            let r = join(components(s).take(k));
            &&& r.len() > 0
            &&& !is_separator(r[0])
            &&& components(r) == components(s).take(k)
            &&& relative_path_of(r) == r
            &&& forall|i: int| 0 <= i < components(r).len() ==> is_name(#[trigger] components(r)[i])
        }),
        k == components(s).len() ==> join(components(s).take(k)) == relative_path_of(s),
{
    let parts = components(s).take(k);
    lemma_components_are_names(s);
    assert forall|i: int| 0 <= i < parts.len() implies has_no_separator(#[trigger] parts[i])
        && is_name(parts[i]) by {
        assert(parts[i] == components(s)[i]);
    }
    let r = join(parts);
    lemma_join_first(parts);
    lemma_segments_of_join(parts);
    assert(!is_device_path(r));
    assert(prefix_segments(r) == 0);
    lemma_all_kept(r, parts.len() as int);
    assert(components(r) =~= parts);
    if k == components(s).len() {
        assert(parts =~= components(s));
    }
}

/// The marker that canonicalization puts before a verbatim path.
pub open spec fn verbatim_marker() -> Seq<char> {
    seq!['\\', '\\', '?', '\\']
}

/// The path by which a source is opened for reading: its text with every
/// leading `\\?\` removed.
pub fn source_open_path(src: &str) -> (r: String)
    ensures
        r@ == strip_prefix_all(src@, verbatim_marker()),
{
    let t = chars_of(src);
    let ghost tv = t@;
    let marker: Vec<char> = vec!['\\', '\\', '?', '\\'];
    assert(marker@ =~= verbatim_marker());
    let n = t.len();
    let mut i: usize = 0;
    assert(tv.skip(0) =~= tv);
    while starts_with_at(&t, i, &marker)
        invariant
            i <= tv.len(),
            n == tv.len(),
            tv == t@,
            tv == src@,
            marker@ == verbatim_marker(),
            verbatim_marker().len() == 4,
            strip_prefix_all(tv, verbatim_marker()) == strip_prefix_all(
                tv.skip(i as int),
                verbatim_marker(),
            ),
        decreases tv.len() - i,
    {
        assert(tv.skip(i as int).skip(4) =~= tv.skip(i + 4));
        i += 4;
    }
    assert(tv.subrange(i as int, n as int) =~= tv.skip(i as int));
    string_from_chars(&t.as_slice()[i..n])
}

/// Text without separators, after a separator, begins one more segment.
pub proof fn lemma_starts_after_separator(a: Seq<char>, w: Seq<char>)
    requires
        has_no_separator(w),
    ensures
        segment_starts(a + seq!['\\'] + w) == segment_starts(a).push(a.len() as int + 1),
    decreases w.len(),
{
    let t = a + seq!['\\'] + w;
    if w.len() == 0 {
        assert(t.drop_last() =~= a);
    } else {
        let w0 = w.drop_last();
        lemma_starts_after_separator(a, w0);
        assert(t.drop_last() =~= a + seq!['\\'] + w0);
    }
}

proof fn lemma_child_name_indices(d: Seq<char>, n: Seq<char>, m: int)
    requires
        0 <= m <= segments(d).len(),
        prefix_segments(d + seq!['\\'] + n) == prefix_segments(d),
        segments(d + seq!['\\'] + n) == segments(d).push(n),
    ensures
        name_indices_upto(d + seq!['\\'] + n, m) == name_indices_upto(d, m),
    decreases m,
{
    if m > 0 {
        lemma_child_name_indices(d, n, m - 1);
        assert(segments(d + seq!['\\'] + n)[m - 1] == segments(d)[m - 1]);
    }
}

/// A path `d` continued by a name `n`: its components are those of `d` and
/// then `n`, and its ancestors are `d`'s ancestors and `d` itself, with the
/// same image and source paths.
pub proof fn lemma_child_path(d: Seq<char>, n: Seq<char>)
    requires
        components(d).len() >= 1,
        is_name(n),
        has_no_separator(n),
    ensures
        components(d + seq!['\\'] + n) == components(d).push(n),
        ancestor_count(d + seq!['\\'] + n) == components(d).len(),
        forall|k: int|
            1 <= k <= components(d).len() ==> #[trigger] ancestor_relative(d + seq!['\\'] + n, k)
                == join(components(d).take(k)) && ancestor_source(d + seq!['\\'] + n, k)
                == ancestor_source(d, k),
{
    let s = d + seq!['\\'] + n;
    let gd = segments(d);
    lemma_segments_len(d);
    lemma_segment_bounds(d);
    lemma_segments_after_separator(d, n);
    lemma_starts_after_separator(d, n);
    lemma_name_indices_upto(d, gd.len() as int);
    let nd = name_indices(d);
    assert(0 <= nd[0] < gd.len() && is_name_at(d, nd[0]));
    // The prefix is the same: `d` names an entry after its own prefix.
    if is_device_path(d) {
        assert(s[0] == d[0] && s[1] == d[1]);
        assert(gd.len() > 4);
        assert(segments(s)[2] == gd[2] && segments(s)[3] == gd[3]);
    } else if d.len() >= 2 {
        assert(s[0] == d[0] && s[1] == d[1]);
    } else if d.len() == 1 {
        if is_separator(d[0]) {
            assert(d.drop_last() =~= Seq::<char>::empty());
            assert(segments(d.drop_last()) == seq![Seq::<char>::empty()]);
            assert(gd =~= seq![Seq::<char>::empty(), Seq::<char>::empty()]);
            assert(gd[nd[0]].len() == 0);
        }
        assert(s[0] == d[0]);
    } else {
        assert(d.drop_last() =~= Seq::<char>::empty());
        assert(gd[nd[0]].len() == 0);
    }
    assert(prefix_segments(s) == prefix_segments(d));
    lemma_child_name_indices(d, n, gd.len() as int);
    let l = gd.len() as int;
    assert(segments(s)[l] == n);
    assert(l >= prefix_segments(s));
    assert(name_indices(s) =~= nd.push(l));
    assert(components(s) =~= components(d).push(n)) by {
        assert forall|i: int| 0 <= i < nd.len() implies #[trigger] segments(s)[nd[i]] == gd[nd[i]] by {
            assert(0 <= nd[i] < l);
        }
    }
    assert forall|k: int| 1 <= k <= components(d).len() implies #[trigger] ancestor_relative(s, k)
        == join(components(d).take(k)) && ancestor_source(s, k) == ancestor_source(d, k) by {
        assert(components(s).take(k) =~= components(d).take(k));
        let i = nd[k - 1];
        assert(0 <= i < l);
        assert(name_indices(s)[k - 1] == i);
        assert(segments(s)[i] == gd[i]);
        assert(segment_starts(s)[i] == segment_starts(d)[i]);
        let e = segment_starts(d)[i] + gd[i].len();
        assert(s.take(e) =~= d.take(e));
    }
}

} // verus!
