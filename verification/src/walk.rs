//! Directory traversal: candidate entries, their deterministic order
//! (directories before files, alphabetically by normalized name within each
//! group), a verified sort, and a work-stack walker that an outer loop feeds
//! with directory listings.

use vstd::prelude::*;
use vstd::relations::sorted_by;
use vstd::relations::total_ordering;
use vstd::seq_lib::lemma_sorted_unique;
use crate::normalize::nfkc_of;
use crate::normalize::normalize_path;
use crate::text::lex_le;
use crate::text::str_lex_le;
use crate::text::lemma_lex_le_reflexive;
use crate::text::lemma_lex_le_total;
use crate::text::lemma_lex_le_antisymmetric;
use crate::text::lemma_lex_le_transitive;

verus! {

/// One path found during traversal, with whether it names a directory.
pub struct CandidateEntry {
    pub path: String,
    pub is_directory: bool,
}

/// The mathematical content of a `CandidateEntry`.
#[verifier::ext_equal]
pub struct EntryView {
    pub path: Seq<char>,
    pub is_directory: bool,
}

impl View for CandidateEntry {
    type V = EntryView;

    open spec fn view(&self) -> EntryView {
        EntryView { path: self.path@, is_directory: self.is_directory }
    }
}

/// The traversal order: directories first, then alphabetically by normalized
/// name; names that normalize alike are ordered by their raw characters, so
/// that the order is total.
pub open spec fn entry_le(a: EntryView, b: EntryView) -> bool {
    if a.is_directory != b.is_directory {
        a.is_directory
    } else if nfkc_of(a.path) != nfkc_of(b.path) {
        lex_le(nfkc_of(a.path), nfkc_of(b.path))
    } else {
        lex_le(a.path, b.path)
    }
}

pub open spec fn entry_order() -> spec_fn(EntryView, EntryView) -> bool {
    |a: EntryView, b: EntryView| entry_le(a, b)
}

/// The traversal order is a total order, so a sorted arrangement of any fixed
/// set of entries is unique.
pub proof fn lemma_entry_order_total()
    ensures
        total_ordering(entry_order()),
{
    let r = entry_order();
    assert forall|x: EntryView| #[trigger] r(x, x) by {
        lemma_lex_le_reflexive(x.path);
    }
    assert forall|x: EntryView, y: EntryView| #[trigger] r(x, y) && #[trigger] r(y, x) implies x
        == y by {
        if x.is_directory == y.is_directory {
            if nfkc_of(x.path) != nfkc_of(y.path) {
                lemma_lex_le_antisymmetric(nfkc_of(x.path), nfkc_of(y.path));
            } else {
                lemma_lex_le_antisymmetric(x.path, y.path);
                assert(x =~= y);
            }
        }
    }
    assert forall|x: EntryView, y: EntryView, z: EntryView|
        #[trigger] r(x, y) && #[trigger] r(y, z) implies r(x, z) by {
        lemma_entry_le_transitive(x, y, z);
    }
    assert forall|x: EntryView, y: EntryView| !(#[trigger] r(x, y)) implies #[trigger] r(y, x) by {
        if x.is_directory == y.is_directory {
            if nfkc_of(x.path) != nfkc_of(y.path) {
                lemma_lex_le_total(nfkc_of(x.path), nfkc_of(y.path));
            } else {
                lemma_lex_le_total(x.path, y.path);
            }
        }
    }
}

/// Any two entries are comparable.
pub proof fn lemma_entry_le_total(x: EntryView, y: EntryView)
    ensures
        entry_le(x, y) || entry_le(y, x),
{
    if x.is_directory == y.is_directory {
        if nfkc_of(x.path) != nfkc_of(y.path) {
            lemma_lex_le_total(nfkc_of(x.path), nfkc_of(y.path));
        } else {
            lemma_lex_le_total(x.path, y.path);
        }
    }
}

proof fn lemma_entry_le_transitive(x: EntryView, y: EntryView, z: EntryView)
    requires
        entry_le(x, y),
        entry_le(y, z),
    ensures
        entry_le(x, z),
{
    let nx = nfkc_of(x.path);
    let ny = nfkc_of(y.path);
    let nz = nfkc_of(z.path);
    if x.is_directory == y.is_directory && y.is_directory == z.is_directory {
        if nx != ny && ny != nz {
            lemma_lex_le_transitive(nx, ny, nz);
            if nx == nz {
                lemma_lex_le_antisymmetric(nx, ny);
            }
        } else if nx == ny && ny == nz {
            lemma_lex_le_transitive(x.path, y.path, z.path);
        }
    }
}

/// The views of a sequence of entries.
pub open spec fn views_of(s: Seq<CandidateEntry>) -> Seq<EntryView> {
    s.map_values(|e: CandidateEntry| e@)
}

/// Decides the traversal order on two entries.
pub fn entry_le_exec(a: &CandidateEntry, b: &CandidateEntry) -> (r: bool)
    ensures
        r == entry_le(a@, b@),
{
    if a.is_directory != b.is_directory {
        return a.is_directory;
    }
    let na = normalize_path(a.path.as_str());
    let nb = normalize_path(b.path.as_str());
    if na.eq(&nb) {
        str_lex_le(a.path.as_str(), b.path.as_str())
    } else {
        str_lex_le(na.as_str(), nb.as_str())
    }
}

/// Sorts entries into the traversal order: directories before files, and
/// alphabetically by normalized name within each group.
pub fn sort_entries(entries: &mut Vec<CandidateEntry>)
    ensures
        sorted_by(views_of(final(entries)@), entry_order()),
        views_of(final(entries)@).to_multiset() == views_of(old(entries)@).to_multiset(),
{
    broadcast use vstd::seq_lib::group_to_multiset_ensures;

    let ghost orig = views_of(old(entries)@);
    let n = entries.len();
    if n <= 1 {
        proof {
            assert(views_of(entries@) =~= orig);
        }
        return ;
    }
    let mut i: usize = 1;
    while i < n
        invariant
            1 <= i <= n,
            n == entries@.len(),
            sorted_by(views_of(entries@).take(i as int), entry_order()),
            views_of(entries@).to_multiset() == orig.to_multiset(),
        decreases n - i,
    {
        let ghost v = views_of(entries@);
        let mut j: usize = 0;
        while j < i
            invariant
                0 <= j <= i < n,
                n == entries@.len(),
                views_of(entries@) == v,
                forall|k: int| 0 <= k < j ==> entry_le(#[trigger] v[k], v[i as int]),
            ensures
                0 <= j <= i,
                forall|k: int| 0 <= k < j ==> entry_le(#[trigger] v[k], v[i as int]),
                j < i ==> !entry_le(v[j as int], v[i as int]),
            decreases i - j,
        {
            if !entry_le_exec(&entries[j], &entries[i]) {
                break ;
            }
            j = j + 1;
        }
        let x = entries.remove(i);
        entries.insert(j, x);
        proof {
            let w = views_of(entries@);
            let u = v.remove(i as int).insert(j as int, v[i as int]);
            assert(w =~= u);
            lemma_sorted_insert(v, i as int, j as int);
            assert(w.to_multiset() == v.to_multiset()) by {
                broadcast use vstd::multiset::group_multiset_axioms;

                vstd::seq_lib::to_multiset_remove(v, i as int);
                vstd::seq_lib::to_multiset_insert(
                    v.remove(i as int),
                    j as int,
                    v[i as int],
                );
                assert(v.contains(v[i as int]));
                vstd::seq_lib::to_multiset_contains(v, v[i as int]);
                assert(v.to_multiset().remove(v[i as int]).insert(v[i as int]) =~= v.to_multiset());
            }
        }
        i = i + 1;
    }
    proof {
        assert(views_of(entries@).take(n as int) =~= views_of(entries@));
    }
}

/// Moving a later element back to its insertion point keeps the prefix sorted
/// one element longer.
proof fn lemma_sorted_insert(v: Seq<EntryView>, i: int, j: int)
    requires
        0 <= j <= i < v.len(),
        sorted_by(v.take(i), entry_order()),
        forall|k: int| 0 <= k < j ==> entry_le(#[trigger] v[k], v[i]),
        j < i ==> !entry_le(v[j], v[i]),
    ensures
        sorted_by(v.remove(i).insert(j, v[i]).take(i + 1), entry_order()),
{
    let u = v.remove(i).insert(j, v[i]);
    let t = u.take(i + 1);
    let r = entry_order();
    assert forall|a: int, b: int| 0 <= a < b < t.len() implies #[trigger] r(t[a], t[b]) by {
        let va = if a < j {
            v[a]
        } else if a == j {
            v[i]
        } else {
            v[a - 1]
        };
        let vb = if b < j {
            v[b]
        } else if b == j {
            v[i]
        } else {
            v[b - 1]
        };
        assert(t[a] == va);
        assert(t[b] == vb);
        if j < i {
            lemma_entry_le_total(v[j], v[i]);
        }
        if a < j {
            if b < j {
                lemma_prefix_le(v, i, a, b);
            } else if b == j {
                assert(entry_le(v[a], v[i]));
            } else {
                lemma_prefix_le(v, i, a, b - 1);
            }
        } else if a == j {
            assert(b > j && j <= b - 1 < i);
            if b - 1 == j {
                assert(entry_le(v[i], v[j]));
            } else {
                lemma_prefix_le(v, i, j, b - 1);
                lemma_entry_le_transitive(v[i], v[j], v[b - 1]);
            }
        } else {
            lemma_prefix_le(v, i, a - 1, b - 1);
        }
        assert(entry_le(va, vb));
    }
}

/// Reads one comparison out of the sortedness of a prefix.
proof fn lemma_prefix_le(v: Seq<EntryView>, i: int, p: int, q: int)
    requires
        0 <= p < q < i <= v.len(),
        sorted_by(v.take(i), entry_order()),
    ensures
        entry_le(v[p], v[q]),
{
    let r = entry_order();
    assert(r(v.take(i)[p], v.take(i)[q]));
    assert(v.take(i)[p] == v[p]);
    assert(v.take(i)[q] == v[q]);
}

/// The views of a sequence of path strings.
pub open spec fn path_views(s: Seq<String>) -> Seq<Seq<char>> {
    s.map_values(|p: String| p@)
}

/// Paths of the directories among `s`, last first: the order in which a
/// walker pushes them so that its stack pops them in traversal order.
pub open spec fn dir_paths_reversed(s: Seq<EntryView>) -> Seq<Seq<char>>
    decreases s.len(),
{
    if s.len() == 0 {
        Seq::<Seq<char>>::empty()
    } else {
        (if s.last().is_directory {
            seq![s.last().path]
        } else {
            Seq::<Seq<char>>::empty()
        }) + dir_paths_reversed(s.drop_last())
    }
}

pub proof fn lemma_dir_paths_reversed_singleton(e: EntryView)
    ensures
        dir_paths_reversed(seq![e]) == if e.is_directory {
            seq![e.path]
        } else {
            Seq::<Seq<char>>::empty()
        },
{
    assert(seq![e].drop_last() =~= Seq::<EntryView>::empty());
    assert(dir_paths_reversed(Seq::<EntryView>::empty()) =~= Seq::<Seq<char>>::empty());
    if e.is_directory {
        assert(dir_paths_reversed(seq![e]) =~= seq![e.path]);
    } else {
        assert(dir_paths_reversed(seq![e]) =~= Seq::<Seq<char>>::empty());
    }
}

pub proof fn lemma_dir_paths_reversed_add(x: Seq<EntryView>, y: Seq<EntryView>)
    ensures
        dir_paths_reversed(x + y) == dir_paths_reversed(y) + dir_paths_reversed(x),
    decreases y.len(),
{
    if y.len() == 0 {
        assert(x + y =~= x);
        assert(dir_paths_reversed(y) + dir_paths_reversed(x) =~= dir_paths_reversed(x));
    } else {
        assert((x + y).drop_last() =~= x + y.drop_last());
        assert((x + y).last() == y.last());
        lemma_dir_paths_reversed_add(x, y.drop_last());
        assert(dir_paths_reversed(x + y) =~= dir_paths_reversed(y) + dir_paths_reversed(x));
    }
}

/// Walks directory trees with an explicit work stack. An outer loop pops a
/// directory with `next_dir`, lists it (the one operation the walker cannot do
/// itself), and hands the listing to `on_listing`; the walker emits the
/// entries in traversal order and, in recursive mode, queues subdirectories.
/// A listing that failed is simply not handed back: that subtree is skipped
/// and the rest of the walk is unaffected.
pub struct Walker {
    pub recursive: bool,
    pub pending: Vec<String>,
    pub emitted: Vec<CandidateEntry>,
}

impl Walker {
    /// A walk of the tree rooted at `root`.
    pub fn new(root: String, recursive: bool) -> (w: Walker)
        ensures
            w.recursive == recursive,
            path_views(w.pending@) == seq![root@],
            w.emitted@.len() == 0,
    {
        let ghost root_chars = root@;
        let mut pending: Vec<String> = Vec::new();
        pending.push(root);
        proof {
            assert(path_views(pending@) =~= seq![root_chars]);
        }
        Walker { recursive, pending, emitted: Vec::new() }
    }

    /// Pops the next directory to list, `None` when the walk is finished.
    pub fn next_dir(&mut self) -> (r: Option<String>)
        ensures
            final(self).recursive == old(self).recursive,
            final(self).emitted == old(self).emitted,
            old(self).pending@.len() == 0 ==> r is None && final(self).pending@ == old(
                self,
            ).pending@,
            old(self).pending@.len() > 0 ==> (r matches Some(d) && d == old(
                self,
            ).pending@.last() && final(self).pending@ == old(self).pending@.drop_last()),
    {
        self.pending.pop()
    }

    /// Takes the listing of the directory last popped: emits its entries in
    /// traversal order and, in recursive mode, queues the subdirectories so
    /// that the next pops visit them depth-first in that same order. In
    /// non-recursive mode the work stack is left untouched, so nothing beyond
    /// the root's direct children is ever visited.
    pub fn on_listing(&mut self, entries: Vec<CandidateEntry>)
        ensures
            final(self).recursive == old(self).recursive,
            final(self).emitted@.len() == old(self).emitted@.len() + entries@.len(),
            views_of(final(self).emitted@).take(old(self).emitted@.len() as int) == views_of(
                old(self).emitted@,
            ),
            sorted_by(
                views_of(final(self).emitted@).skip(old(self).emitted@.len() as int),
                entry_order(),
            ),
            views_of(final(self).emitted@).skip(
                old(self).emitted@.len() as int,
            ).to_multiset() == views_of(entries@).to_multiset(),
            !old(self).recursive ==> final(self).pending@ == old(self).pending@,
            old(self).recursive ==> path_views(final(self).pending@) == path_views(
                old(self).pending@,
            ) + dir_paths_reversed(
                views_of(final(self).emitted@).skip(old(self).emitted@.len() as int),
            ),
    {
        let mut block = entries;
        sort_entries(&mut block);
        let ghost b = views_of(block@);
        let ghost p0 = path_views(self.pending@);
        if self.recursive {
            let mut k: usize = block.len();
            proof {
                assert(b.skip(k as int) =~= Seq::<EntryView>::empty());
                assert(path_views(self.pending@) =~= p0 + dir_paths_reversed(b.skip(k as int)));
            }
            while k > 0
                invariant
                    0 <= k <= block@.len(),
                    views_of(block@) == b,
                    self.recursive == old(self).recursive,
                    self.emitted == old(self).emitted,
                    path_views(self.pending@) == p0 + dir_paths_reversed(b.skip(k as int)),
                decreases k,
            {
                k = k - 1;
                proof {
                    assert(b.skip(k as int) =~= seq![b[k as int]] + b.skip(k as int + 1));
                    lemma_dir_paths_reversed_add(seq![b[k as int]], b.skip(k as int + 1));
                    lemma_dir_paths_reversed_singleton(b[k as int]);
                }
                if block[k].is_directory {
                    let ghost before = self.pending@;
                    let d = block[k].path.clone();
                    self.pending.push(d);
                    proof {
                        assert(d@ == b[k as int].path);
                        assert(path_views(self.pending@) =~= path_views(before).push(d@));
                        assert(dir_paths_reversed(b.skip(k as int)) =~= dir_paths_reversed(
                            b.skip(k as int + 1),
                        ).push(b[k as int].path));
                        assert(path_views(self.pending@) =~= p0 + dir_paths_reversed(
                            b.skip(k as int),
                        ));
                    }
                } else {
                    proof {
                        assert(dir_paths_reversed(b.skip(k as int)) =~= dir_paths_reversed(
                            b.skip(k as int + 1),
                        ));
                    }
                }
            }
            proof {
                assert(b.skip(0) =~= b);
            }
        }
        let ghost pend1 = self.pending@;
        let ghost e0 = views_of(self.emitted@);
        proof {
            assert(b.take(0) =~= Seq::<EntryView>::empty());
            assert(views_of(self.emitted@) =~= e0 + b.take(0));
        }
        while block.len() > 0
            invariant
                views_of(block@) == b.skip(b.len() - block@.len()),
                views_of(self.emitted@) == e0 + b.take(b.len() - block@.len()),
                self.pending@ == pend1,
                self.recursive == old(self).recursive,
                block@.len() <= b.len(),
            decreases block@.len(),
        {
            let ghost c: int = b.len() - block@.len();
            let ghost prev = block@;
            let ghost prev_emitted = self.emitted@;
            let e = block.remove(0);
            self.emitted.push(e);
            proof {
                assert(self.emitted@ == prev_emitted.push(e));
                assert(views_of(self.emitted@) =~= views_of(prev_emitted).push(e@));
                assert(e@ == views_of(prev)[0]);
                assert(views_of(prev)[0] == b.skip(c)[0]);
                assert(b.skip(c)[0] == b[c]);
                assert(block@ == prev.remove(0));
                assert(views_of(block@) =~= b.skip(c + 1)) by {
                    assert(views_of(prev) == b.skip(c));
                    assert forall|x: int| 0 <= x < block@.len() implies views_of(block@)[x] == b.skip(
                        c + 1,
                    )[x] by {
                        assert(block@[x] == prev[x + 1]);
                        assert(views_of(block@)[x] == views_of(prev)[x + 1]);
                        assert(views_of(prev)[x + 1] == b.skip(c)[x + 1]);
                        assert(b.skip(c)[x + 1] == b[c + 1 + x]);
                    }
                }
                assert(b.take(c + 1) =~= b.take(c).push(b[c]));
                assert(views_of(self.emitted@) =~= e0 + b.take(c + 1));
            }
        }
        proof {
            assert(b.take(b.len() as int) =~= b);
            assert(views_of(self.emitted@) =~= e0 + b);
            assert(views_of(self.emitted@).take(e0.len() as int) =~= e0);
            assert(views_of(self.emitted@).skip(e0.len() as int) =~= b);
            vstd::seq_lib::to_multiset_len(b);
            vstd::seq_lib::to_multiset_len(views_of(entries@));
            assert(b.len() == entries@.len());
            assert(self.emitted@.len() == views_of(self.emitted@).len());
            if !old(self).recursive {
                assert(self.pending@ == old(self).pending@);
            }
        }
    }
}

/// Ordering determinism: two sorted arrangements of the same entries are the
/// same sequence, so traversal order never depends on the order in which the
/// operating system reported the entries.
pub proof fn lemma_order_deterministic(x: Seq<EntryView>, y: Seq<EntryView>)
    requires
        sorted_by(x, entry_order()),
        sorted_by(y, entry_order()),
        x.to_multiset() == y.to_multiset(),
    ensures
        x == y,
{
    lemma_entry_order_total();
    lemma_sorted_unique(x, y, entry_order());
    assert(x =~= y);
}

} // verus!
