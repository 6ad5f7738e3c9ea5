//! The unit of work of an image build: a source path and its path inside the
//! image.
//!
//! Resolution asks questions of the filesystem (does the source exist, is an
//! ancestor a file, does it exist). The caller answers them beforehand in a
//! [`SourceProbe`]; [`ancestor_sources`] lists the paths that the answers are
//! about.
use vstd::prelude::*;
use crate::error::CimError;
use crate::text::{chars_of, string_from_chars};
use crate::path::{
    ancestor_count, ancestor_relative, ancestor_source, components, has_no_separator, is_name,
    join, lemma_child_path, relative_path_of, resolve_text,
};

verus! {

/// A source path and the path to use for it inside the image.
///
/// The image path is empty exactly while the descriptor is unresolved.
#[derive(Debug)]
pub struct Object {
    relative_path: String,
    src: String,
}

/// What a descriptor holds, as text.
pub struct ObjectView {
    pub relative_path: Seq<char>,
    pub src: Seq<char>,
}

impl View for Object {
    type V = ObjectView;

    closed spec fn view(&self) -> ObjectView {
        ObjectView { relative_path: self.relative_path@, src: self.src@ }
    }
}

/// What the filesystem said of one strict ancestor of a source path.
#[derive(Debug, Clone, Copy, PartialEq, Eq, Structural)]
pub struct AncestorProbe {
    /// The ancestor's path names a file.
    pub is_file: bool,
    /// The ancestor's path can be canonicalized.
    pub exists: bool,
}

/// What the filesystem said of a source path and of its strict ancestors, the
/// latter in the order of [`ancestor_sources`], from the outermost in.
#[derive(Debug)]
pub struct SourceProbe {
    /// The source path can be canonicalized.
    pub source_exists: bool,
    pub ancestors: Vec<AncestorProbe>,
}

/// The ancestor formed by the first `k` components is a file. An ancestor
/// that the probe does not cover counts as neither a file nor existing.
pub open spec fn probe_is_file(p: Seq<AncestorProbe>, k: int) -> bool {
    0 <= k - 1 < p.len() && p[k - 1].is_file
}

pub open spec fn probe_exists(p: Seq<AncestorProbe>, k: int) -> bool {
    0 <= k - 1 < p.len() && p[k - 1].exists
}

/// The largest `k` from one to `m` whose ancestor is a file, zero if none:
/// ancestors are gathered from the innermost outward and the walk stops at
/// the first file.
pub open spec fn file_cut(p: Seq<AncestorProbe>, m: int) -> int
    decreases m,
{
    if m <= 0 {
        0
    } else if probe_is_file(p, m) {
        m
    } else {
        file_cut(p, m - 1)
    }
}

/// The first ancestor level that resolution gathers.
pub open spec fn first_gathered(s: Seq<char>, p: Seq<AncestorProbe>) -> int {
    file_cut(p, ancestor_count(s)) + 1
}

/// Every gathered ancestor exists.
pub open spec fn gathered_exist(s: Seq<char>, p: Seq<AncestorProbe>) -> bool {
    forall|k: int| first_gathered(s, p) <= k <= ancestor_count(s) ==> probe_exists(p, k)
}

/// The descriptor of the ancestor formed by the first `k` components of `s`.
pub open spec fn ancestor_view(s: Seq<char>, k: int) -> ObjectView {
    ObjectView { relative_path: ancestor_relative(s, k), src: ancestor_source(s, k) }
}

pub proof fn lemma_file_cut(p: Seq<AncestorProbe>, m: int)
    ensures
        0 <= file_cut(p, m) <= if m < 0 {
            0
        } else {
            m
        },
        forall|k: int| file_cut(p, m) < k <= m ==> !probe_is_file(p, k),
        file_cut(p, m) > 0 ==> probe_is_file(p, file_cut(p, m)),
    decreases m,
{
    if m > 0 {
        lemma_file_cut(p, m - 1);
    }
}

/// The source paths of the strict ancestors of `src` inside the image, from the
/// outermost in: the paths that a [`SourceProbe`] answers for.
pub fn ancestor_sources(src: &str) -> (r: Vec<String>)
    ensures
        r@.len() == ancestor_count(src@),
        forall|j: int| 0 <= j < r@.len() ==> #[trigger] r@[j]@ == ancestor_source(src@, j + 1),
{
    let chars = chars_of(src);
    let t = resolve_text(&chars);
    let mut r: Vec<String> = Vec::new();
    let mut j: usize = 0;
    while j < t.ancestor_sources.len()
        invariant
            j <= t.ancestor_sources@.len(),
            t.ancestor_sources@.len() == ancestor_count(src@),
            chars@ == src@,
            forall|i: int|
                0 <= i < ancestor_count(chars@) ==> #[trigger] t.ancestor_sources@[i]@
                    == ancestor_source(chars@, i + 1),
            r@.len() == j,
            forall|i: int| 0 <= i < j ==> #[trigger] r@[i]@ == ancestor_source(src@, i + 1),
        decreases t.ancestor_sources@.len() - j,
    {
        r.push(string_from_chars(t.ancestor_sources[j].as_slice()));
        j += 1;
    }
    r
}

impl Object {
    /// A descriptor of `src`, not yet resolved.
    pub fn new(src: &str) -> (r: Object)
        ensures
            r@.src == src@,
            r@.relative_path.len() == 0,
    {
        Object { relative_path: String::new(), src: src.to_owned() }
    }

    /// Sets the path inside the image from the source path and, when
    /// `parse_ancestors` is set, returns the descriptors of the ancestor
    /// directories to add before this object, outermost first.
    ///
    /// An ancestor that is a file ends the walk outward. A source that does not
    /// exist, names no entry of the image, or has a gathered ancestor that does
    /// not exist gives `InvalidPath`. A descriptor already resolved is left as
    /// it is.
    pub fn resolve_relative_path(&mut self, parse_ancestors: bool, probe: &SourceProbe) -> (r:
        Result<Vec<Object>, CimError>)
        ensures
            final(self)@.src == old(self)@.src,
            old(self)@.relative_path.len() > 0 ==> final(self)@ == old(self)@ && r is Ok
                && r->Ok_0@.len() == 0,
            old(self)@.relative_path.len() == 0 && (!probe.source_exists || relative_path_of(
                old(self)@.src,
            ).len() == 0) ==> final(self)@ == old(self)@ && r == Err::<Vec<Object>, CimError>(
                CimError::InvalidPath,
            ),
            old(self)@.relative_path.len() == 0 && probe.source_exists && relative_path_of(
                old(self)@.src,
            ).len() > 0 ==> {
                let s = old(self)@.src;
                let p = probe.ancestors@;
                &&& final(self)@.relative_path == relative_path_of(s)
                &&& !parse_ancestors ==> r is Ok && r->Ok_0@.len() == 0
                &&& parse_ancestors && !gathered_exist(s, p) ==> r == Err::<Vec<Object>, CimError>(
                    CimError::InvalidPath,
                )
                &&& parse_ancestors && gathered_exist(s, p) ==> r is Ok && r->Ok_0@.len()
                    == ancestor_count(s) - first_gathered(s, p) + 1 && forall|j: int|
                    0 <= j < r->Ok_0@.len() ==> #[trigger] r->Ok_0@[j]@ == ancestor_view(
                        s,
                        first_gathered(s, p) + j,
                    )
            },
    {
        if !self.relative_path.as_str().is_empty() {
            proof {
                assert(self.relative_path@.len() > 0);
            }
            return Ok(Vec::new());
        }
        proof {
            assert(self.relative_path@.len() == 0);
        }
        if !probe.source_exists {
            return Err(CimError::InvalidPath);
        }
        let chars = chars_of(self.src.as_str());
        let t = resolve_text(&chars);
        if t.relative.len() == 0 {
            return Err(CimError::InvalidPath);
        }
        self.relative_path = string_from_chars(t.relative.as_slice());
        if !parse_ancestors {
            return Ok(Vec::new());
        }
        let ghost s = chars@;
        let ghost p = probe.ancestors@;
        let count = t.ancestor_sources.len();
        // Walk outward from the innermost ancestor and stop at the first file.
        let mut cut: usize = count;
        while cut > 0 && !(cut - 1 < probe.ancestors.len() && probe.ancestors[cut - 1].is_file)
            invariant
                cut <= count,
                count as int == ancestor_count(s),
                p == probe.ancestors@,
                forall|k: int| cut < k <= count ==> !probe_is_file(p, k),
            decreases cut,
        {
            cut -= 1;
        }
        proof {
            lemma_file_cut(p, count as int);
            lemma_cut_is_largest(p, count as int, cut as int);
        }
        let mut out: Vec<Object> = Vec::new();
        // `k` is the index of the ancestor formed by the first `k + 1` components.
        let mut k: usize = cut;
        while k < count
            invariant
                cut <= k <= count,
                cut as int == file_cut(p, ancestor_count(s)),
                count as int == ancestor_count(s),
                p == probe.ancestors@,
                s == self.src@,
                self@.src == old(self)@.src,
                old(self)@.relative_path.len() == 0,
                self@.relative_path == relative_path_of(s),
                relative_path_of(s).len() > 0,
                probe.source_exists,
                parse_ancestors,
                t.ancestor_sources@.len() == count,
                t.ancestor_relatives@.len() == count,
                forall|j: int|
                    0 <= j < ancestor_count(s) ==> #[trigger] t.ancestor_sources@[j]@
                        == ancestor_source(s, j + 1) && t.ancestor_relatives@[j]@
                        == ancestor_relative(s, j + 1),
                forall|i: int| cut < i <= k ==> probe_exists(p, i),
                out@.len() == k - cut,
                forall|j: int|
                    0 <= j < out@.len() ==> #[trigger] out@[j]@ == ancestor_view(s, cut + 1 + j),
            decreases count - k,
        {
            if !(k < probe.ancestors.len() && probe.ancestors[k].exists) {
                proof {
                    assert(!probe_exists(p, k + 1));
                    assert(first_gathered(s, p) <= k + 1 <= ancestor_count(s));
                    assert(!gathered_exist(s, p));
                }
                return Err(CimError::InvalidPath);
            }
            let a = Object {
                relative_path: string_from_chars(t.ancestor_relatives[k].as_slice()),
                src: string_from_chars(t.ancestor_sources[k].as_slice()),
            };
            out.push(a);
            k += 1;
        }
        Ok(out)
    }

    /// The path inside the image; `Unresolved` before resolution.
    pub fn get_relative_path(&self) -> (r: Result<&String, CimError>)
        ensures
            self@.relative_path.len() == 0 ==> r == Err::<&String, CimError>(CimError::Unresolved),
            self@.relative_path.len() > 0 ==> r is Ok && r->Ok_0@ == self@.relative_path,
    {
        if self.relative_path.as_str().is_empty() {
            Err(CimError::Unresolved)
        } else {
            Ok(&self.relative_path)
        }
    }

    /// The source path as it was given.
    pub fn source_path(&self) -> (r: &String)
        ensures
            r@ == self@.src,
    {
        &self.src
    }
}

pub proof fn lemma_cut_is_largest(p: Seq<AncestorProbe>, m: int, c: int)
    requires
        0 <= c <= m,
        forall|k: int| c < k <= m ==> !probe_is_file(p, k),
        c == 0 || probe_is_file(p, c),
    ensures
        file_cut(p, m) == c,
    decreases m,
{
    if m > c {
        lemma_cut_is_largest(p, m - 1, c);
    } else if c > 0 {
    } else {
    }
}

/// `a` is a strict ancestor of `b`: `b` continues `a` after a separator.
pub open spec fn is_strict_ancestor(a: Seq<char>, b: Seq<char>) -> bool {
    b.len() > a.len() && b.take(a.len() as int) == a && b[a.len() as int] == '\\'
}

proof fn lemma_join_extends(parts: Seq<Seq<char>>, k1: int, k2: int)
    requires
        1 <= k1 < k2 <= parts.len(),
    ensures
        is_strict_ancestor(join(parts.take(k1)), join(parts.take(k2))),
    decreases k2,
{
    let a = join(parts.take(k1));
    let b = join(parts.take(k2));
    let b0 = join(parts.take(k2 - 1));
    assert(parts.take(k2).drop_last() =~= parts.take(k2 - 1));
    assert(b == b0 + seq!['\\'] + parts[k2 - 1]);
    if k2 == k1 + 1 {
        assert(b.take(a.len() as int) =~= a);
    } else {
        lemma_join_extends(parts, k1, k2 - 1);
        assert(b.take(a.len() as int) =~= b0.take(a.len() as int));
        assert(b[a.len() as int] == b0[a.len() as int]);
    }
}

/// When every strict ancestor of `s` exists on disk and none is a file,
/// resolution gathers all `N` of them, where `N` is one less than the number of
/// components, and lists each before its descendants: each gathered path is a
/// strict ancestor of every later one and of the object's own path, so no two
/// are equal.
pub proof fn lemma_all_ancestors_gathered(s: Seq<char>, p: Seq<AncestorProbe>)
    requires
        p.len() == ancestor_count(s),
        forall|i: int| 0 <= i < p.len() ==> (#[trigger] p[i]).exists && !p[i].is_file,
    ensures
        first_gathered(s, p) == 1,
        gathered_exist(s, p),
        gathered_views(s, p).len() == ancestor_count(s),
        forall|k1: int, k2: int|
            1 <= k1 < k2 <= ancestor_count(s) ==> is_strict_ancestor(
                #[trigger] ancestor_relative(s, k1),
                #[trigger] ancestor_relative(s, k2),
            ),
        forall|k: int|
            1 <= k <= ancestor_count(s) ==> is_strict_ancestor(
                #[trigger] ancestor_relative(s, k),
                relative_path_of(s),
            ),
{
    let m = ancestor_count(s);
    lemma_file_cut(p, m);
    if file_cut(p, m) > 0 {
        assert(p[file_cut(p, m) - 1].is_file);
    }
    assert forall|k: int| first_gathered(s, p) <= k <= m implies probe_exists(p, k) by {
        assert(p[k - 1].exists);
    }
    let parts = components(s);
    assert forall|k1: int, k2: int| 1 <= k1 < k2 <= m implies is_strict_ancestor(
        #[trigger] ancestor_relative(s, k1),
        #[trigger] ancestor_relative(s, k2),
    ) by {
        lemma_join_extends(parts, k1, k2);
    }
    assert forall|k: int| 1 <= k <= m implies is_strict_ancestor(
        #[trigger] ancestor_relative(s, k),
        relative_path_of(s),
    ) by {
        lemma_join_extends(parts, k, parts.len() as int);
        assert(parts.take(parts.len() as int) =~= parts);
    }
}

/// The descriptors of `v` have pairwise different image paths.
pub open spec fn distinct_paths(v: Seq<Object>) -> bool {
    forall|i: int, j: int|
        0 <= i < j < v.len() ==> #[trigger] v[i]@.relative_path != #[trigger] v[j]@.relative_path
}

/// What the descriptors of `v` hold.
pub open spec fn views_of(v: Seq<Object>) -> Seq<ObjectView> {
    v.map_values(|o: Object| o@)
}

/// Some descriptor of `v` has the image path `r`.
pub open spec fn has_path(v: Seq<ObjectView>, r: Seq<char>) -> bool {
    exists|i: int| 0 <= i < v.len() && #[trigger] v[i].relative_path == r
}

/// `set` followed by each descriptor of `found`, in `found`'s order, whose
/// image path is not held by `set` or by an earlier one of them.
pub open spec fn merged(set: Seq<ObjectView>, found: Seq<ObjectView>) -> Seq<ObjectView>
    decreases found.len(),
{
    if found.len() == 0 {
        set
    } else {
        let m = merged(set, found.drop_last());
        if has_path(m, found.last().relative_path) {
            m
        } else {
            m.push(found.last())
        }
    }
}

/// Adds to `set`, in `found`'s order, each descriptor of `found` whose image
/// path `set` does not hold yet: ancestors that sibling objects share are added
/// once, and those of one object keep their order, parents first.
pub fn merge_ancestors(set: &mut Vec<Object>, found: &Vec<Object>)
    requires
        distinct_paths(old(set)@),
    ensures
        distinct_paths(final(set)@),
        views_of(final(set)@) == merged(views_of(old(set)@), views_of(found@)),
{
    let ghost start = views_of(set@);
    let ghost fv = views_of(found@);
    let mut j: usize = 0;
    assert(fv.take(0) =~= Seq::<ObjectView>::empty());
    while j < found.len()
        invariant
            j <= found@.len(),
            fv == views_of(found@),
            distinct_paths(set@),
            views_of(set@) == merged(start, fv.take(j as int)),
        decreases found@.len() - j,
    {
        let o = &found[j];
        let mut present = false;
        let mut i: usize = 0;
        while i < set.len()
            invariant
                i <= set@.len(),
                present == exists|q: int| 0 <= q < i && #[trigger] set@[q]@.relative_path
                    == o@.relative_path,
            decreases set@.len() - i,
        {
            let same = set[i].relative_path == o.relative_path;
            proof {
                assert(same == (set@[i as int]@.relative_path == o@.relative_path));
            }
            if same {
                present = true;
            }
            i += 1;
        }
        let ghost before = set@;
        proof {
            assert(fv.take(j + 1).drop_last() =~= fv.take(j as int));
            assert(fv.take(j + 1).last() == o@);
            if present {
                let q = choose|q: int| 0 <= q < before.len() && #[trigger] before[q]@.relative_path
                    == o@.relative_path;
                assert(views_of(before)[q].relative_path == o@.relative_path);
            } else {
                assert forall|q: int| 0 <= q < views_of(before).len() implies #[trigger] views_of(
                    before,
                )[q].relative_path != o@.relative_path by {
                    assert(views_of(before)[q] == before[q]@);
                }
            }
        }
        if !present {
            let c = Object { relative_path: o.relative_path.clone(), src: o.src.clone() };
            set.push(c);
            proof {
                assert(views_of(set@) =~= views_of(before).push(o@));
                assert forall|a: int, b: int|
                    0 <= a < b < set@.len() implies #[trigger] set@[a]@.relative_path
                    != #[trigger] set@[b]@.relative_path by {
                    assert(set@[a] == before[a]);
                    if b < before.len() {
                        assert(set@[b] == before[b]);
                    }
                }
            }
        }
        j += 1;
    }
    assert(fv.take(found@.len() as int) =~= fv);
}

/// Resolving `s` with the answers `exists` and `p` succeeds.
pub open spec fn resolves(s: Seq<char>, exists: bool, p: Seq<AncestorProbe>) -> bool {
    exists && relative_path_of(s).len() > 0 && gathered_exist(s, p)
}

/// The ancestors that resolving `s` with the answers `p` gathers.
pub open spec fn gathered_views(s: Seq<char>, p: Seq<AncestorProbe>) -> Seq<ObjectView> {
    Seq::new(
        (ancestor_count(s) - first_gathered(s, p) + 1) as nat,
        |j: int| ancestor_view(s, first_gathered(s, p) + j),
    )
}

/// The first `n` sources resolve.
pub open spec fn all_resolve(items: Seq<(String, SourceProbe)>, n: int) -> bool {
    forall|i: int|
        0 <= i < n ==> resolves(#[trigger] items[i].0@, items[i].1.source_exists, items[i].1.ancestors@)
}

/// The ancestors of the first `n` sources, merged in turn.
pub open spec fn merged_ancestors(items: Seq<(String, SourceProbe)>, n: int) -> Seq<ObjectView>
    decreases n,
{
    if n <= 0 {
        Seq::empty()
    } else {
        merged(
            merged_ancestors(items, n - 1),
            gathered_views(items[n - 1].0@, items[n - 1].1.ancestors@),
        )
    }
}

/// The resolved descriptor of the source `s`.
pub open spec fn resolved_view(s: Seq<char>) -> ObjectView {
    ObjectView { relative_path: relative_path_of(s), src: s }
}

/// Resolves each source with its filesystem answers. Returns the ancestor
/// directories that the sources need, each once, in the order in which they
/// were gathered (parents before children), and the resolved sources in order.
/// Fails with `InvalidPath` if any source fails to resolve.
pub fn resolve_sources(items: &Vec<(String, SourceProbe)>) -> (r: Result<
    (Vec<Object>, Vec<Object>),
    CimError,
>)
    ensures
        !all_resolve(items@, items@.len() as int) ==> r == Err::<(Vec<Object>, Vec<Object>), CimError>(
            CimError::InvalidPath,
        ),
        all_resolve(items@, items@.len() as int) ==> r is Ok && views_of(r->Ok_0.0@)
            == merged_ancestors(items@, items@.len() as int) && views_of(r->Ok_0.1@) == Seq::new(
            items@.len(),
            |i: int| resolved_view(items@[i].0@),
        ),
{
    let mut ancestors: Vec<Object> = Vec::new();
    let mut objects: Vec<Object> = Vec::new();
    let mut i: usize = 0;
    assert(views_of(ancestors@) =~= merged_ancestors(items@, 0));
    while i < items.len()
        invariant
            i <= items@.len(),
            all_resolve(items@, i as int),
            distinct_paths(ancestors@),
            views_of(ancestors@) == merged_ancestors(items@, i as int),
            views_of(objects@) == Seq::new(i as nat, |q: int| resolved_view(items@[q].0@)),
        decreases items@.len() - i,
    {
        let item = &items[i];
        let mut o = Object::new(item.0.as_str());
        let found = match o.resolve_relative_path(true, &item.1) {
            Ok(found) => found,
            Err(e) => {
                proof {
                    assert(!resolves(items@[i as int].0@, item.1.source_exists, item.1.ancestors@));
                }
                return Err(e);
            },
        };
        let ghost s = item.0@;
        let ghost p = item.1.ancestors@;
        proof {
            assert(resolves(s, item.1.source_exists, p));
            assert(views_of(found@) =~= gathered_views(s, p));
        }
        merge_ancestors(&mut ancestors, &found);
        let ghost before = objects@;
        objects.push(o);
        i += 1;
        proof {
            assert(views_of(objects@) =~= Seq::new(i as nat, |q: int| resolved_view(items@[q].0@)))
                by {
                assert(views_of(objects@) =~= views_of(before).push(o@));
            }
        }
    }
    Ok((ancestors, objects))
}

proof fn lemma_merged_holds(set: Seq<ObjectView>, found: Seq<ObjectView>)
    ensures
        merged(set, found).len() >= set.len(),
        forall|i: int| 0 <= i < set.len() ==> #[trigger] merged(set, found)[i] == set[i],
        forall|j: int|
            0 <= j < found.len() ==> has_path(merged(set, found), #[trigger] found[j].relative_path),
    decreases found.len(),
{
    if found.len() > 0 {
        let f0 = found.drop_last();
        lemma_merged_holds(set, f0);
        let m = merged(set, f0);
        assert forall|j: int|
            0 <= j < found.len() implies has_path(merged(set, found), #[trigger] found[j].relative_path) by {
            if j < found.len() - 1 {
                assert(found[j] == f0[j]);
                let w = choose|w: int| 0 <= w < m.len() && #[trigger] m[w].relative_path
                    == f0[j].relative_path;
                assert(merged(set, found)[w] == m[w]);
            } else if !has_path(m, found.last().relative_path) {
                assert(merged(set, found)[m.len() as int] == found.last());
            }
        }
    }
}

proof fn lemma_merged_unchanged(m: Seq<ObjectView>, found: Seq<ObjectView>)
    requires
        forall|j: int| 0 <= j < found.len() ==> has_path(m, #[trigger] found[j].relative_path),
    ensures
        merged(m, found) == m,
    decreases found.len(),
{
    if found.len() > 0 {
        let f0 = found.drop_last();
        assert forall|j: int| 0 <= j < f0.len() implies has_path(m, #[trigger] f0[j].relative_path) by {
            assert(f0[j] == found[j]);
        }
        lemma_merged_unchanged(m, f0);
        assert(has_path(m, found[found.len() - 1].relative_path));
    }
}

/// Siblings, two sources that continue one parent path `d` with a name each,
/// gather the same ancestors from the same answers, one for each component of
/// `d`; so merging the second's ancestors after the first's adds none.
pub proof fn lemma_siblings_share_ancestors(
    d: Seq<char>,
    n1: Seq<char>,
    n2: Seq<char>,
    p: Seq<AncestorProbe>,
    set: Seq<ObjectView>,
)
    requires
        components(d).len() >= 1,
        is_name(n1),
        is_name(n2),
        has_no_separator(n1),
        has_no_separator(n2),
    ensures
        ancestor_count(d + seq!['\\'] + n1) == components(d).len(),
        gathered_views(d + seq!['\\'] + n1, p) == gathered_views(d + seq!['\\'] + n2, p),
        merged(
            merged(set, gathered_views(d + seq!['\\'] + n1, p)),
            gathered_views(d + seq!['\\'] + n2, p),
        ) == merged(set, gathered_views(d + seq!['\\'] + n1, p)),
{
    let s1 = d + seq!['\\'] + n1;
    let s2 = d + seq!['\\'] + n2;
    lemma_child_path(d, n1);
    lemma_child_path(d, n2);
    let g1 = gathered_views(s1, p);
    let g2 = gathered_views(s2, p);
    assert(first_gathered(s1, p) == first_gathered(s2, p));
    lemma_file_cut(p, ancestor_count(s1));
    assert forall|j: int| 0 <= j < g1.len() implies #[trigger] g1[j] == g2[j] by {
        let k = first_gathered(s1, p) + j;
        assert(1 <= k <= components(d).len());
        assert(ancestor_relative(s1, k) == ancestor_relative(s2, k));
        assert(ancestor_source(s1, k) == ancestor_source(s2, k));
    }
    assert(g1 =~= g2);
    lemma_merged_holds(set, g1);
    lemma_merged_unchanged(merged(set, g1), g2);
}

} // verus!
