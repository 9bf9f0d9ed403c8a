//! The document index: a record store keyed by source path and the two
//! derived group indexes (tags and collections), modelled as association
//! sequences with unique keys and duplicate-free group membership.

use vstd::prelude::*;
use crate::frontmatter::AugmentedFrontMatter;
use crate::frontmatter::AugmentedFrontMatterView;
use crate::frontmatter::FrontMatterView;
use crate::frontmatter::ThinAugmentedFrontMatter;
use crate::frontmatter::ThinAugmentedFrontMatterView;
use crate::frontmatter::thin_of;
use crate::paths::relative_of;
use crate::paths::write_path_of;

verus! {

/// Index of the first entry with key `k`, or the length when absent.
pub open spec fn find_idx<V>(m: Seq<(Seq<char>, V)>, k: Seq<char>) -> int
    decreases m.len(),
{
    if m.len() == 0 {
        0
    } else if m[0].0 == k {
        0
    } else {
        1 + find_idx(m.drop_first(), k)
    }
}

/// Whether the association sequence holds key `k`.
pub open spec fn has_key<V>(m: Seq<(Seq<char>, V)>, k: Seq<char>) -> bool {
    find_idx(m, k) < m.len()
}

/// The value stored under key `k`.
pub open spec fn lookup<V>(m: Seq<(Seq<char>, V)>, k: Seq<char>) -> V {
    m[find_idx(m, k)].1
}

pub proof fn lemma_find_idx<V>(m: Seq<(Seq<char>, V)>, k: Seq<char>)
    ensures
        0 <= find_idx(m, k) <= m.len(),
        find_idx(m, k) < m.len() ==> m[find_idx(m, k)].0 == k,
        forall|j: int| 0 <= j < find_idx(m, k) ==> m[j].0 != k,
        forall|j: int| 0 <= j < m.len() && m[j].0 == k ==> find_idx(m, k) <= j,
    decreases m.len(),
{
    if m.len() == 0 {
    } else if m[0].0 == k {
    } else {
        lemma_find_idx(m.drop_first(), k);
        let f = find_idx(m, k);
        assert forall|j: int| 0 <= j < f implies m[j].0 != k by {
            if j > 0 {
                assert(m.drop_first()[j - 1] == m[j]);
            }
        }
        assert forall|j: int| 0 <= j < m.len() && m[j].0 == k implies f <= j by {
            if j > 0 {
                assert(m.drop_first()[j - 1] == m[j]);
            }
        }
        if f < m.len() {
            assert(m.drop_first()[f - 1] == m[f]);
        }
    }
}

pub proof fn lemma_upsert_lookup<V>(m: Seq<(Seq<char>, V)>, k: Seq<char>, v: V)
    ensures
        has_key(upsert(m, k, v), k),
        lookup(upsert(m, k, v), k) == v,
        find_idx(upsert(m, k, v), k) == if has_key(m, k) {
            find_idx(m, k)
        } else {
            m.len() as int
        },
{
    lemma_find_idx(m, k);
    let u = upsert(m, k, v);
    if has_key(m, k) {
        let i = find_idx(m, k);
        lemma_find_idx_at(u, k, i);
    } else {
        lemma_find_idx_at(u, k, m.len() as int);
    }
}

/// All keys distinct.
pub open spec fn keys_unique<V>(m: Seq<(Seq<char>, V)>) -> bool {
    forall|i: int, j: int| 0 <= i < j < m.len() ==> m[i].0 != m[j].0
}

/// All entries of one group list stem from distinct source paths.
pub open spec fn sources_unique(l: Seq<ThinAugmentedFrontMatterView>) -> bool {
    forall|i: int, j: int| 0 <= i < j < l.len() ==> l[i].source_path != l[j].source_path
}

/// Whether a group list already holds an entry for a source path.
pub open spec fn contains_source(l: Seq<ThinAugmentedFrontMatterView>, sp: Seq<char>) -> bool {
    exists|i: int| 0 <= i < l.len() && l[i].source_path == sp
}

/// Well-formedness of a group index: unique keys, and no group holds two
/// entries for one document.
pub open spec fn groups_wf(m: Seq<(Seq<char>, Seq<ThinAugmentedFrontMatterView>)>) -> bool {
    &&& keys_unique(m)
    &&& forall|i: int| 0 <= i < m.len() ==> sources_unique(#[trigger] m[i].1)
}

/// Insert or overwrite: an existing entry is replaced in place, a new key
/// is appended.
pub open spec fn upsert<V>(m: Seq<(Seq<char>, V)>, k: Seq<char>, v: V) -> Seq<(Seq<char>, V)> {
    if has_key(m, k) {
        m.update(find_idx(m, k), (k, v))
    } else {
        m.push((k, v))
    }
}

pub proof fn lemma_upsert_keys_unique<V>(m: Seq<(Seq<char>, V)>, k: Seq<char>, v: V)
    requires
        keys_unique(m),
    ensures
        keys_unique(upsert(m, k, v)),
{
    lemma_find_idx(m, k);
    if has_key(m, k) {
        let i = find_idx(m, k);
        let u = m.update(i, (k, v));
        assert forall|a: int, b: int| 0 <= a < b < u.len() implies u[a].0 != u[b].0 by {
            assert(m[i].0 == k);
            assert(u[a].0 == m[a].0);
            assert(u[b].0 == m[b].0);
        }
    }
}

/// Add one document's entry to one group: a fresh group starts with it, a
/// group that already holds an entry for the same source path is left
/// alone, any other group appends it.
pub open spec fn group_add(
    m: Seq<(Seq<char>, Seq<ThinAugmentedFrontMatterView>)>,
    k: Seq<char>,
    t: ThinAugmentedFrontMatterView,
) -> Seq<(Seq<char>, Seq<ThinAugmentedFrontMatterView>)> {
    if !has_key(m, k) {
        m.push((k, seq![t]))
    } else {
        let i = find_idx(m, k);
        if contains_source(m[i].1, t.source_path) {
            m
        } else {
            m.update(i, (k, m[i].1.push(t)))
        }
    }
}

pub proof fn lemma_group_add_wf(
    m: Seq<(Seq<char>, Seq<ThinAugmentedFrontMatterView>)>,
    k: Seq<char>,
    t: ThinAugmentedFrontMatterView,
)
    requires
        groups_wf(m),
    ensures
        groups_wf(group_add(m, k, t)),
{
    lemma_find_idx(m, k);
    let u = group_add(m, k, t);
    if !has_key(m, k) {
        assert forall|a: int, b: int| 0 <= a < b < u.len() implies u[a].0 != u[b].0 by {
            if b < m.len() {
                assert(u[a] == m[a]);
                assert(u[b] == m[b]);
            } else {
                assert(u[a] == m[a]);
                assert(u[b].0 == k);
            }
        }
        assert forall|i: int| 0 <= i < u.len() implies sources_unique(#[trigger] u[i].1) by {
            if i < m.len() {
                assert(u[i] == m[i]);
            } else {
                assert(u[i].1 =~= seq![t]);
            }
        }
    } else {
        let i = find_idx(m, k);
        if !contains_source(m[i].1, t.source_path) {
            assert forall|a: int, b: int| 0 <= a < b < u.len() implies u[a].0 != u[b].0 by {
                assert(m[i].0 == k);
                assert(u[a].0 == m[a].0);
                assert(u[b].0 == m[b].0);
            }
            assert forall|j: int| 0 <= j < u.len() implies sources_unique(#[trigger] u[j].1) by {
                if j != i {
                    assert(u[j] == m[j]);
                } else {
                    let lst = m[i].1;
                    assert forall|a: int, b: int|
                        0 <= a < b < lst.push(t).len() implies lst.push(t)[a].source_path
                        != lst.push(t)[b].source_path by {
                        if b < lst.len() {
                            assert(lst.push(t)[a] == lst[a]);
                            assert(lst.push(t)[b] == lst[b]);
                        } else {
                            assert(lst.push(t)[a] == lst[a]);
                            assert(lst.push(t)[b] == t);
                            assert(!(lst[a].source_path == t.source_path));
                        }
                    }
                }
            }
        }
    }
}

/// Keys alone decide where a lookup lands: two association sequences
/// with the same keys have the same find index for every key.
pub proof fn lemma_find_idx_keys_eq<V1, V2>(
    m1: Seq<(Seq<char>, V1)>,
    m2: Seq<(Seq<char>, V2)>,
    k: Seq<char>,
)
    requires
        m1.len() == m2.len(),
        forall|j: int| 0 <= j < m1.len() ==> (#[trigger] m1[j]).0 == m2[j].0,
    ensures
        find_idx(m1, k) == find_idx(m2, k),
    decreases m1.len(),
{
    if m1.len() > 0 {
        assert forall|j: int| 0 <= j < m1.drop_first().len() implies (#[trigger] m1.drop_first()[
            j
        ]).0 == m2.drop_first()[j].0 by {
            assert(m1.drop_first()[j] == m1[j + 1]);
            assert(m2.drop_first()[j] == m2[j + 1]);
        }
        lemma_find_idx_keys_eq(m1.drop_first(), m2.drop_first(), k);
    }
}

/// An upsert leaves every other key's entry alone.
pub proof fn lemma_upsert_frame<V>(m: Seq<(Seq<char>, V)>, k: Seq<char>, v: V, k2: Seq<char>)
    requires
        k2 != k,
    ensures
        has_key(upsert(m, k, v), k2) == has_key(m, k2),
        has_key(m, k2) ==> lookup(upsert(m, k, v), k2) == lookup(m, k2),
{
    lemma_find_idx(m, k);
    lemma_find_idx(m, k2);
    let u = upsert(m, k, v);
    if has_key(m, k) {
        let i = find_idx(m, k);
        assert forall|j: int| 0 <= j < u.len() implies (#[trigger] u[j]).0 == m[j].0 by {
            assert(m[i].0 == k);
        }
        lemma_find_idx_keys_eq(u, m, k2);
        if has_key(m, k2) {
            assert(find_idx(m, k2) != i);
        }
    } else {
        if has_key(m, k2) {
            lemma_find_idx_at(u, k2, find_idx(m, k2));
        } else {
            lemma_find_idx_absent(u, k2);
        }
    }
}

/// Upserting the same record twice is the same as once.
pub proof fn lemma_upsert_idempotent<V>(m: Seq<(Seq<char>, V)>, k: Seq<char>, v: V)
    ensures
        upsert(upsert(m, k, v), k, v) == upsert(m, k, v),
{
    lemma_upsert_lookup(m, k, v);
    let u = upsert(m, k, v);
    lemma_find_idx(u, k);
    let i = find_idx(u, k);
    assert(u[i] == (k, v));
    assert(u.update(i, (k, v)) =~~= u);
}

/// A group insert leaves every other key's entry alone.
pub proof fn lemma_group_add_frame(
    m: Seq<(Seq<char>, Seq<ThinAugmentedFrontMatterView>)>,
    k: Seq<char>,
    t: ThinAugmentedFrontMatterView,
    k2: Seq<char>,
)
    requires
        k2 != k,
    ensures
        has_key(group_add(m, k, t), k2) == has_key(m, k2),
        has_key(m, k2) ==> lookup(group_add(m, k, t), k2) == lookup(m, k2),
{
    lemma_find_idx(m, k);
    lemma_find_idx(m, k2);
    let g = group_add(m, k, t);
    if !has_key(m, k) {
        if has_key(m, k2) {
            lemma_find_idx_at(g, k2, find_idx(m, k2));
        } else {
            lemma_find_idx_absent(g, k2);
        }
    } else {
        let i = find_idx(m, k);
        if !contains_source(m[i].1, t.source_path) {
            assert forall|j: int| 0 <= j < g.len() implies (#[trigger] g[j]).0 == m[j].0 by {
                assert(m[i].0 == k);
            }
            lemma_find_idx_keys_eq(g, m, k2);
            if has_key(m, k2) {
                assert(find_idx(m, k2) != i);
            }
        }
    }
}

/// After a group insert the group holds the entry, in the exact shape
/// the insert gives it.
pub proof fn lemma_group_add_member(
    m: Seq<(Seq<char>, Seq<ThinAugmentedFrontMatterView>)>,
    k: Seq<char>,
    t: ThinAugmentedFrontMatterView,
)
    ensures
        has_key(group_add(m, k, t), k),
        contains_source(lookup(group_add(m, k, t), k), t.source_path),
        lookup(group_add(m, k, t), k) == if has_key(m, k) {
            if contains_source(lookup(m, k), t.source_path) {
                lookup(m, k)
            } else {
                lookup(m, k).push(t)
            }
        } else {
            seq![t]
        },
{
    lemma_find_idx(m, k);
    let g = group_add(m, k, t);
    if !has_key(m, k) {
        lemma_find_idx_at(g, k, m.len() as int);
        assert(lookup(g, k) =~~= seq![t]);
        assert(seq![t][0].source_path == t.source_path);
    } else {
        let i = find_idx(m, k);
        if contains_source(m[i].1, t.source_path) {
        } else {
            assert forall|j: int| 0 <= j < i implies (#[trigger] g[j]).0 != k by {
                assert(g[j].0 == m[j].0);
            }
            lemma_find_idx_at(g, k, i);
            let lst = m[i].1.push(t);
            assert(lst[lst.len() - 1].source_path == t.source_path);
        }
    }
}

/// A group insert whose entry is already present changes nothing.
pub proof fn lemma_group_add_noop(
    m: Seq<(Seq<char>, Seq<ThinAugmentedFrontMatterView>)>,
    k: Seq<char>,
    t: ThinAugmentedFrontMatterView,
)
    requires
        has_key(m, k),
        contains_source(lookup(m, k), t.source_path),
    ensures
        group_add(m, k, t) == m,
{
    lemma_find_idx(m, k);
}

/// Add one document's entry to every group it belongs to, in order.
pub open spec fn add_groups(
    m: Seq<(Seq<char>, Seq<ThinAugmentedFrontMatterView>)>,
    keys: Seq<Seq<char>>,
    t: ThinAugmentedFrontMatterView,
) -> Seq<(Seq<char>, Seq<ThinAugmentedFrontMatterView>)>
    decreases keys.len(),
{
    if keys.len() == 0 {
        m
    } else {
        add_groups(group_add(m, keys[0], t), keys.drop_first(), t)
    }
}

pub proof fn lemma_add_groups_wf(
    m: Seq<(Seq<char>, Seq<ThinAugmentedFrontMatterView>)>,
    keys: Seq<Seq<char>>,
    t: ThinAugmentedFrontMatterView,
)
    requires
        groups_wf(m),
    ensures
        groups_wf(add_groups(m, keys, t)),
    decreases keys.len(),
{
    if keys.len() > 0 {
        lemma_group_add_wf(m, keys[0], t);
        lemma_add_groups_wf(group_add(m, keys[0], t), keys.drop_first(), t);
    }
}

/// What adding one document's entry across its key list does to every
/// group: groups of other keys are untouched; each listed key's group
/// exists afterwards and holds the entry exactly once, appended at the
/// end unless an entry for the same source path was already there.
pub proof fn lemma_add_groups_effect(
    m: Seq<(Seq<char>, Seq<ThinAugmentedFrontMatterView>)>,
    keys: Seq<Seq<char>>,
    t: ThinAugmentedFrontMatterView,
)
    ensures
        forall|k: Seq<char>|
            #![trigger has_key(add_groups(m, keys, t), k)]
            #![trigger lookup(add_groups(m, keys, t), k)]
            keys.contains(k) ==> has_key(add_groups(m, keys, t), k) && lookup(
                add_groups(m, keys, t),
                k,
            ) == (if has_key(m, k) {
                if contains_source(lookup(m, k), t.source_path) {
                    lookup(m, k)
                } else {
                    lookup(m, k).push(t)
                }
            } else {
                seq![t]
            }),
        forall|k: Seq<char>|
            #![trigger has_key(add_groups(m, keys, t), k)]
            #![trigger lookup(add_groups(m, keys, t), k)]
            !keys.contains(k) ==> has_key(add_groups(m, keys, t), k) == has_key(m, k) && (has_key(
                m,
                k,
            ) ==> lookup(add_groups(m, keys, t), k) == lookup(m, k)),
    decreases keys.len(),
{
    if keys.len() > 0 {
        let k0 = keys[0];
        let m1 = group_add(m, k0, t);
        let g = add_groups(m, keys, t);
        let rest = keys.drop_first();
        let g1 = add_groups(m1, rest, t);
        assert(g == g1);
        lemma_group_add_member(m, k0, t);
        lemma_add_groups_effect(m1, rest, t);
        assert(keys.contains(k0));
        assert forall|k: Seq<char>|
            #![trigger has_key(add_groups(m, keys, t), k)]
            #![trigger lookup(add_groups(m, keys, t), k)]
            keys.contains(k) implies has_key(add_groups(m, keys, t), k) && lookup(
            add_groups(m, keys, t),
            k,
        ) == (if has_key(m, k) {
            if contains_source(lookup(m, k), t.source_path) {
                lookup(m, k)
            } else {
                lookup(m, k).push(t)
            }
        } else {
            seq![t]
        }) by {
            if k == k0 {
                if rest.contains(k0) {
                    assert(contains_source(lookup(m1, k0), t.source_path));
                    assert(has_key(g1, k0));
                    assert(lookup(g1, k0) == lookup(m1, k0));
                } else {
                    assert(has_key(g1, k0) == has_key(m1, k0));
                    assert(lookup(g1, k0) == lookup(m1, k0));
                }
            } else {
                let j = choose|j: int| 0 <= j < keys.len() && keys[j] == k;
                assert(0 <= j - 1 < rest.len() && rest[j - 1] == k);
                assert(rest.contains(k));
                lemma_group_add_frame(m, k0, t, k);
                assert(has_key(g1, k));
                assert(lookup(g1, k) == (if has_key(m1, k) {
                    if contains_source(lookup(m1, k), t.source_path) {
                        lookup(m1, k)
                    } else {
                        lookup(m1, k).push(t)
                    }
                } else {
                    seq![t]
                }));
            }
        }
        assert forall|k: Seq<char>|
            #![trigger has_key(add_groups(m, keys, t), k)]
            #![trigger lookup(add_groups(m, keys, t), k)]
            !keys.contains(k) implies has_key(add_groups(m, keys, t), k) == has_key(m, k) && (
        has_key(m, k) ==> lookup(add_groups(m, keys, t), k) == lookup(m, k)) by {
            assert(k != k0);
            assert forall|j: int| 0 <= j < rest.len() implies rest[j] != k by {
                assert(keys[j + 1] == rest[j]);
            }
            assert(!rest.contains(k));
            lemma_group_add_frame(m, k0, t, k);
            assert(has_key(g1, k) == has_key(m1, k));
            if has_key(m1, k) {
                assert(lookup(g1, k) == lookup(m1, k));
            }
        }
    }
}

/// Adding an entry whose source path every listed group already holds
/// changes nothing.
pub proof fn lemma_add_groups_noop(
    m: Seq<(Seq<char>, Seq<ThinAugmentedFrontMatterView>)>,
    keys: Seq<Seq<char>>,
    t: ThinAugmentedFrontMatterView,
)
    requires
        forall|k: Seq<char>| keys.contains(k) ==> #[trigger] has_key(m, k) && contains_source(
            lookup(m, k),
            t.source_path,
        ),
    ensures
        add_groups(m, keys, t) == m,
    decreases keys.len(),
{
    if keys.len() > 0 {
        let k0 = keys[0];
        assert(keys.contains(k0));
        lemma_group_add_noop(m, k0, t);
        assert forall|k: Seq<char>| keys.drop_first().contains(k) implies #[trigger] has_key(m, k)
            && contains_source(lookup(m, k), t.source_path) by {
            let j = choose|j: int| 0 <= j < keys.drop_first().len() && keys.drop_first()[j] == k;
            assert(keys[j + 1] == k);
            assert(keys.contains(k));
        }
        lemma_add_groups_noop(m, keys.drop_first(), t);
    }
}

/// Adding one document's entry across its key list twice is the same as
/// once.
pub proof fn lemma_add_groups_idempotent(
    m: Seq<(Seq<char>, Seq<ThinAugmentedFrontMatterView>)>,
    keys: Seq<Seq<char>>,
    t: ThinAugmentedFrontMatterView,
)
    ensures
        add_groups(add_groups(m, keys, t), keys, t) == add_groups(m, keys, t),
{
    let g = add_groups(m, keys, t);
    lemma_add_groups_effect(m, keys, t);
    assert forall|k: Seq<char>| keys.contains(k) implies #[trigger] has_key(g, k)
        && contains_source(lookup(g, k), t.source_path) by {
        if has_key(m, k) && contains_source(lookup(m, k), t.source_path) {
        } else if has_key(m, k) {
            let lst = lookup(m, k).push(t);
            assert(lst[lst.len() - 1].source_path == t.source_path);
        } else {
            assert(seq![t][0].source_path == t.source_path);
        }
    }
    lemma_add_groups_noop(g, keys, t);
}

/// The whole index: record store plus the two group indexes.
pub struct IndexView {
    pub records: Seq<(Seq<char>, AugmentedFrontMatterView)>,
    pub tags: Seq<(Seq<char>, Seq<ThinAugmentedFrontMatterView>)>,
    pub collections: Seq<(Seq<char>, Seq<ThinAugmentedFrontMatterView>)>,
}

impl IndexView {
    pub open spec fn empty() -> IndexView {
        IndexView { records: Seq::empty(), tags: Seq::empty(), collections: Seq::empty() }
    }

    pub open spec fn wf(self) -> bool {
        &&& keys_unique(self.records)
        &&& groups_wf(self.tags)
        &&& groups_wf(self.collections)
    }
}

/// The record built for one parsed document.
pub open spec fn aug_of(
    source_dir: Seq<char>,
    build_dir: Seq<char>,
    p: Seq<char>,
    fm: FrontMatterView,
    content: Seq<char>,
) -> AugmentedFrontMatterView {
    AugmentedFrontMatterView {
        frontmatter: fm,
        source_path: p,
        file_content: content,
        write_path: write_path_of(source_dir, build_dir, p),
        relative_build_path: relative_of(build_dir, write_path_of(source_dir, build_dir, p)),
    }
}

/// Processing one document: its record is inserted or overwritten, and
/// its thin projection joins each of its tag and collection groups unless
/// that group already holds an entry for the same source path.
pub open spec fn process_doc(
    ix: IndexView,
    source_dir: Seq<char>,
    build_dir: Seq<char>,
    p: Seq<char>,
    fm: FrontMatterView,
    content: Seq<char>,
) -> IndexView {
    let aug = aug_of(source_dir, build_dir, p, fm, content);
    let t = thin_of(aug);
    IndexView {
        records: upsert(ix.records, p, aug),
        tags: add_groups(ix.tags, fm.tag_list(), t),
        collections: add_groups(ix.collections, fm.collection_list(), t),
    }
}

pub proof fn lemma_process_doc_wf(
    ix: IndexView,
    source_dir: Seq<char>,
    build_dir: Seq<char>,
    p: Seq<char>,
    fm: FrontMatterView,
    content: Seq<char>,
)
    requires
        ix.wf(),
    ensures
        process_doc(ix, source_dir, build_dir, p, fm, content).wf(),
{
    let aug = aug_of(source_dir, build_dir, p, fm, content);
    let t = thin_of(aug);
    lemma_upsert_keys_unique(ix.records, p, aug);
    lemma_add_groups_wf(ix.tags, fm.tag_list(), t);
    lemma_add_groups_wf(ix.collections, fm.collection_list(), t);
}

/// The mathematical image of the record store.
pub open spec fn records_view(v: Seq<(String, AugmentedFrontMatter)>) -> Seq<
    (Seq<char>, AugmentedFrontMatterView),
> {
    Seq::new(v.len(), |i: int| (v[i].0@, v[i].1@))
}

/// The mathematical image of a group index.
pub open spec fn groups_view(v: Seq<(String, Vec<ThinAugmentedFrontMatter>)>) -> Seq<
    (Seq<char>, Seq<ThinAugmentedFrontMatterView>),
> {
    Seq::new(v.len(), |i: int| (v[i].0@, v[i].1.deep_view()))
}

/// Linear scan for a key.
pub(crate) fn find_key<V>(map: &Vec<(String, V)>, key: &String) -> (r: Option<usize>)
    ensures
        match r {
            Some(i) => i < map.len() && map@[i as int].0@ == key@ && forall|j: int|
                0 <= j < i ==> map@[j].0@ != key@,
            None => forall|j: int| 0 <= j < map@.len() ==> map@[j].0@ != key@,
        },
{
    let mut i: usize = 0;
    while i < map.len()
        invariant
            i <= map.len(),
            forall|j: int| 0 <= j < i ==> map@[j].0@ != key@,
        decreases map.len() - i,
    {
        if map[i].0 == *key {
            return Some(i);
        }
        i = i + 1;
    }
    None
}

pub proof fn lemma_find_idx_at<V>(m: Seq<(Seq<char>, V)>, k: Seq<char>, i: int)
    requires
        0 <= i < m.len(),
        m[i].0 == k,
        forall|j: int| 0 <= j < i ==> m[j].0 != k,
    ensures
        find_idx(m, k) == i,
{
    lemma_find_idx(m, k);
}

pub proof fn lemma_find_idx_absent<V>(m: Seq<(Seq<char>, V)>, k: Seq<char>)
    requires
        forall|j: int| 0 <= j < m.len() ==> m[j].0 != k,
    ensures
        find_idx(m, k) == m.len(),
        !has_key(m, k),
{
    lemma_find_idx(m, k);
}

/// Scan a group list for an entry with the given source path.
fn list_contains_source(list: &Vec<ThinAugmentedFrontMatter>, sp: &String) -> (r: bool)
    ensures
        r == contains_source(list.deep_view(), sp@),
{
    let mut i: usize = 0;
    while i < list.len()
        invariant
            i <= list.len(),
            forall|j: int| 0 <= j < i ==> list.deep_view()[j].source_path != sp@,
        decreases list.len() - i,
    {
        if list[i].source_path == *sp {
            proof {
                assert(list.deep_view()[i as int].source_path == sp@);
            }
            return true;
        }
        i = i + 1;
    }
    false
}

/// Insert one document's entry into one group of a group index.
pub(crate) fn group_insert(
    map: &mut Vec<(String, Vec<ThinAugmentedFrontMatter>)>,
    key: &String,
    thin: ThinAugmentedFrontMatter,
)
    ensures
        groups_view(final(map)@) == group_add(groups_view(old(map)@), key@, thin@),
{
    let ghost m0 = groups_view(map@);
    match find_key(map, key) {
        Some(i) => {
            proof {
                lemma_find_idx_at(m0, key@, i as int);
            }
            if !list_contains_source(&map[i].1, &thin.source_path) {
                let mut lst = map[i].1.clone();
                proof {
                    assert(lst.deep_view() =~= map@[i as int].1.deep_view());
                }
                lst.push(thin);
                proof {
                    assert(lst.deep_view() =~= m0[i as int].1.push(thin@));
                }
                map.set(i, (key.clone(), lst));
                proof {
                    assert(groups_view(map@) =~~= m0.update(
                        i as int,
                        (key@, m0[i as int].1.push(thin@)),
                    ));
                }
            }
        },
        None => {
            proof {
                lemma_find_idx_absent(m0, key@);
            }
            let mut lst: Vec<ThinAugmentedFrontMatter> = Vec::new();
            lst.push(thin);
            map.push((key.clone(), lst));
            proof {
                assert(lst.deep_view() =~= seq![thin@]);
                assert(groups_view(map@) =~~= m0.push((key@, seq![thin@])));
            }
        },
    }
}

} // verus!
