//! Properties of the index and of the watch classification that hold
//! over every input: idempotent re-processing, exact tag-index contents
//! for a full build, locality of an incremental update, determinism of
//! the output-file set, and the structural handling of template changes.

use vstd::prelude::*;
use crate::arguments::src_suffix;
use crate::arguments::static_suffix;
use crate::arguments::templates_suffix;
use crate::frontmatter::AugmentedFrontMatterView;
use crate::frontmatter::FrontMatterView;
use crate::frontmatter::ThinAugmentedFrontMatterView;
use crate::frontmatter::thin_of;
use crate::index::IndexView;
use crate::index::add_groups;
use crate::index::aug_of;
use crate::index::contains_source;
use crate::index::has_key;
use crate::index::lemma_add_groups_effect;
use crate::index::lemma_add_groups_idempotent;
use crate::index::lemma_find_idx_absent;
use crate::index::lemma_upsert_frame;
use crate::index::lemma_upsert_idempotent;
use crate::index::lemma_upsert_lookup;
use crate::index::lookup;
use crate::index::process_doc;
use crate::paths::under_dir;
use crate::paths::under_slashed_dir;
use crate::paths::write_path_of;
use crate::saaru::DocumentSourceView;
use crate::saaru::index_after;
use crate::saaru::process_all;
use crate::watch::WatchDecision;
use crate::watch::spec_classify;

verus! {

/// All documents of a batch come from distinct source paths.
pub open spec fn distinct_paths(docs: Seq<DocumentSourceView>) -> bool {
    forall|i: int, j: int| 0 <= i < j < docs.len() ==> docs[i].source_path != docs[j].source_path
}

/// The record a document builds.
pub open spec fn doc_aug(s: Seq<char>, b: Seq<char>, d: DocumentSourceView) -> AugmentedFrontMatterView {
    aug_of(s, b, d.source_path, d.frontmatter, d.file_content)
}

/// The index entry a document contributes.
pub open spec fn doc_thin(s: Seq<char>, b: Seq<char>, d: DocumentSourceView) -> ThinAugmentedFrontMatterView {
    thin_of(doc_aug(s, b, d))
}

/// The documents of a batch that list a given tag, in batch order.
pub open spec fn docs_with_tag(docs: Seq<DocumentSourceView>, k: Seq<char>) -> Seq<
    DocumentSourceView,
>
    decreases docs.len(),
{
    if docs.len() == 0 {
        Seq::empty()
    } else {
        let prefix = docs_with_tag(docs.drop_last(), k);
        if docs.last().frontmatter.tag_list().contains(k) {
            prefix.push(docs.last())
        } else {
            prefix
        }
    }
}

/// The documents of a batch that list a given collection, in batch
/// order.
pub open spec fn docs_with_collection(docs: Seq<DocumentSourceView>, k: Seq<char>) -> Seq<
    DocumentSourceView,
>
    decreases docs.len(),
{
    if docs.len() == 0 {
        Seq::empty()
    } else {
        let prefix = docs_with_collection(docs.drop_last(), k);
        if docs.last().frontmatter.collection_list().contains(k) {
            prefix.push(docs.last())
        } else {
            prefix
        }
    }
}

/// The index entries of a batch of documents, in batch order.
pub open spec fn summaries_of(docs: Seq<DocumentSourceView>, s: Seq<char>, b: Seq<char>) -> Seq<
    ThinAugmentedFrontMatterView,
>
    decreases docs.len(),
{
    if docs.len() == 0 {
        Seq::empty()
    } else {
        summaries_of(docs.drop_last(), s, b).push(doc_thin(s, b, docs.last()))
    }
}

pub proof fn lemma_summaries_shape(docs: Seq<DocumentSourceView>, s: Seq<char>, b: Seq<char>)
    ensures
        summaries_of(docs, s, b).len() == docs.len(),
        forall|j: int| 0 <= j < docs.len() ==> (#[trigger] summaries_of(docs, s, b)[j])
            == doc_thin(s, b, docs[j]),
    decreases docs.len(),
{
    if docs.len() > 0 {
        lemma_summaries_shape(docs.drop_last(), s, b);
    }
}

pub proof fn lemma_docs_with_tag_sub(docs: Seq<DocumentSourceView>, k: Seq<char>)
    ensures
        docs_with_tag(docs, k).len() <= docs.len(),
        forall|j: int| 0 <= j < docs_with_tag(docs, k).len() ==> exists|i: int|
            0 <= i < docs.len() && (#[trigger] docs_with_tag(docs, k)[j]) == docs[i],
        forall|j: int| 0 <= j < docs_with_tag(docs, k).len() ==> (#[trigger] docs_with_tag(
            docs,
            k,
        )[j]).frontmatter.tag_list().contains(k),
    decreases docs.len(),
{
    if docs.len() > 0 {
        lemma_docs_with_tag_sub(docs.drop_last(), k);
        let dwt = docs_with_tag(docs, k);
        assert forall|j: int| 0 <= j < dwt.len() implies exists|i: int|
            0 <= i < docs.len() && (#[trigger] dwt[j]) == docs[i] by {
            if j < docs_with_tag(docs.drop_last(), k).len() {
                let i = choose|i: int|
                    0 <= i < docs.drop_last().len() && docs_with_tag(docs.drop_last(), k)[j]
                        == docs.drop_last()[i];
                assert(docs.drop_last()[i] == docs[i]);
                assert(dwt[j] == docs[i]);
            } else {
                assert(dwt[j] == docs[docs.len() - 1]);
            }
        }
    }
}

pub proof fn lemma_docs_with_collection_sub(docs: Seq<DocumentSourceView>, k: Seq<char>)
    ensures
        docs_with_collection(docs, k).len() <= docs.len(),
        forall|j: int| 0 <= j < docs_with_collection(docs, k).len() ==> exists|i: int|
            0 <= i < docs.len() && (#[trigger] docs_with_collection(docs, k)[j]) == docs[i],
    decreases docs.len(),
{
    if docs.len() > 0 {
        lemma_docs_with_collection_sub(docs.drop_last(), k);
        let dwc = docs_with_collection(docs, k);
        assert forall|j: int| 0 <= j < dwc.len() implies exists|i: int|
            0 <= i < docs.len() && (#[trigger] dwc[j]) == docs[i] by {
            if j < docs_with_collection(docs.drop_last(), k).len() {
                let i = choose|i: int|
                    0 <= i < docs.drop_last().len() && docs_with_collection(docs.drop_last(), k)[j]
                        == docs.drop_last()[i];
                assert(docs.drop_last()[i] == docs[i]);
                assert(dwc[j] == docs[i]);
            } else {
                assert(dwc[j] == docs[docs.len() - 1]);
            }
        }
    }
}

/// Folding a batch and then one more document equals folding the longer
/// batch.
pub proof fn lemma_process_all_snoc(
    ix: IndexView,
    docs: Seq<DocumentSourceView>,
    d: DocumentSourceView,
    s: Seq<char>,
    b: Seq<char>,
)
    ensures
        process_all(ix, docs.push(d), s, b) == process_doc(
            process_all(ix, docs, s, b),
            s,
            b,
            d.source_path,
            d.frontmatter,
            d.file_content,
        ),
    decreases docs.len(),
{
    let whole = docs.push(d);
    if docs.len() == 0 {
        assert(whole[0] == d);
        assert(whole.drop_first() =~= Seq::<DocumentSourceView>::empty());
        let once = process_doc(ix, s, b, d.source_path, d.frontmatter, d.file_content);
        assert(process_all(ix, whole, s, b) == process_all(once, whole.drop_first(), s, b));
        assert(process_all(once, whole.drop_first(), s, b) == once);
        assert(process_all(ix, docs, s, b) == ix);
    } else {
        assert(whole[0] == docs[0]);
        assert(whole.drop_first() =~= docs.drop_first().push(d));
        lemma_process_all_snoc(
            process_doc(ix, s, b, docs[0].source_path, docs[0].frontmatter, docs[0].file_content),
            docs.drop_first(),
            d,
            s,
            b,
        );
    }
}

/// Re-processing the very same document twice leaves the index exactly
/// as processing it once did: the record overwrite hits the same slot
/// with the same record, and every group already holds the entry.
pub proof fn lemma_process_doc_idempotent(
    ix: IndexView,
    s: Seq<char>,
    b: Seq<char>,
    p: Seq<char>,
    fm: FrontMatterView,
    c: Seq<char>,
)
    ensures
        process_doc(process_doc(ix, s, b, p, fm, c), s, b, p, fm, c) == process_doc(
            ix,
            s,
            b,
            p,
            fm,
            c,
        ),
{
    let aug = aug_of(s, b, p, fm, c);
    let t = thin_of(aug);
    lemma_upsert_idempotent(ix.records, p, aug);
    lemma_add_groups_idempotent(ix.tags, fm.tag_list(), t);
    lemma_add_groups_idempotent(ix.collections, fm.collection_list(), t);
}

/// A document that declares no tags and no collections joins no group
/// index at all, yet its record is stored and carries its computed
/// output path.
pub proof fn lemma_doc_without_groups(
    ix: IndexView,
    s: Seq<char>,
    b: Seq<char>,
    p: Seq<char>,
    fm: FrontMatterView,
    c: Seq<char>,
)
    requires
        fm.tags is None,
        fm.collections is None,
    ensures
        process_doc(ix, s, b, p, fm, c).tags == ix.tags,
        process_doc(ix, s, b, p, fm, c).collections == ix.collections,
        has_key(process_doc(ix, s, b, p, fm, c).records, p),
        lookup(process_doc(ix, s, b, p, fm, c).records, p) == aug_of(s, b, p, fm, c),
        lookup(process_doc(ix, s, b, p, fm, c).records, p).write_path == write_path_of(s, b, p),
{
    lemma_upsert_lookup(ix.records, p, aug_of(s, b, p, fm, c));
}

/// Processing one document touches nothing but that document's record
/// and its own tag and collection groups: every other record is
/// unchanged, groups of unlisted keys are unchanged, and a listed group
/// at most gains this document's entry at its end.
pub proof fn lemma_process_doc_local(
    ix: IndexView,
    s: Seq<char>,
    b: Seq<char>,
    p: Seq<char>,
    fm: FrontMatterView,
    c: Seq<char>,
)
    ensures
        forall|q: Seq<char>| q != p ==> #[trigger] has_key(
            process_doc(ix, s, b, p, fm, c).records,
            q,
        ) == has_key(ix.records, q),
        forall|q: Seq<char>| q != p && has_key(ix.records, q) ==> #[trigger] lookup(
            process_doc(ix, s, b, p, fm, c).records,
            q,
        ) == lookup(ix.records, q),
        forall|k: Seq<char>| !fm.tag_list().contains(k) ==> #[trigger] has_key(
            process_doc(ix, s, b, p, fm, c).tags,
            k,
        ) == has_key(ix.tags, k),
        forall|k: Seq<char>| !fm.tag_list().contains(k) && has_key(ix.tags, k) ==> #[trigger]
            lookup(process_doc(ix, s, b, p, fm, c).tags, k) == lookup(ix.tags, k),
        forall|k: Seq<char>| fm.tag_list().contains(k) && has_key(ix.tags, k) ==> #[trigger]
            lookup(process_doc(ix, s, b, p, fm, c).tags, k) == lookup(ix.tags, k) || lookup(
            process_doc(ix, s, b, p, fm, c).tags,
            k,
        ) == lookup(ix.tags, k).push(thin_of(aug_of(s, b, p, fm, c))),
        forall|k: Seq<char>| !fm.collection_list().contains(k) ==> #[trigger] has_key(
            process_doc(ix, s, b, p, fm, c).collections,
            k,
        ) == has_key(ix.collections, k),
        forall|k: Seq<char>| !fm.collection_list().contains(k) && has_key(ix.collections, k)
            ==> #[trigger] lookup(process_doc(ix, s, b, p, fm, c).collections, k) == lookup(
            ix.collections,
            k,
        ),
{
    let aug = aug_of(s, b, p, fm, c);
    let t = thin_of(aug);
    assert forall|q: Seq<char>|
        #![trigger has_key(process_doc(ix, s, b, p, fm, c).records, q)]
        #![trigger lookup(process_doc(ix, s, b, p, fm, c).records, q)]
        q != p implies has_key(process_doc(ix, s, b, p, fm, c).records, q) == has_key(
        ix.records,
        q,
    ) && (has_key(ix.records, q) ==> lookup(process_doc(ix, s, b, p, fm, c).records, q) == lookup(
        ix.records,
        q,
    )) by {
        lemma_upsert_frame(ix.records, p, aug, q);
    }
    lemma_add_groups_effect(ix.tags, fm.tag_list(), t);
    lemma_add_groups_effect(ix.collections, fm.collection_list(), t);
}

/// What a full build's record store holds: one record per document of
/// the batch, in batch order, each with its computed output path.
pub proof fn lemma_build_records(docs: Seq<DocumentSourceView>, s: Seq<char>, b: Seq<char>)
    requires
        distinct_paths(docs),
    ensures
        index_after(docs, s, b).records.len() == docs.len(),
        forall|i: int| 0 <= i < docs.len() ==> (#[trigger] index_after(docs, s, b).records[i])
            == (docs[i].source_path, doc_aug(s, b, docs[i])),
    decreases docs.len(),
{
    if docs.len() > 0 {
        let prefix = docs.drop_last();
        let d = docs.last();
        assert forall|i: int, j: int| 0 <= i < j < prefix.len() implies (#[trigger] prefix[i]).source_path
            != (#[trigger] prefix[j]).source_path by {
            assert(prefix[i] == docs[i]);
            assert(prefix[j] == docs[j]);
        }
        lemma_build_records(prefix, s, b);
        assert(docs =~= prefix.push(d));
        lemma_process_all_snoc(IndexView::empty(), prefix, d, s, b);
        let ixp = index_after(prefix, s, b);
        assert forall|j: int| 0 <= j < ixp.records.len() implies (#[trigger] ixp.records[j]).0
            != d.source_path by {
            assert(ixp.records[j] == (prefix[j].source_path, doc_aug(s, b, prefix[j])));
            assert(prefix[j] == docs[j]);
            assert(docs[j].source_path != docs[docs.len() - 1].source_path);
        }
        lemma_find_idx_absent(ixp.records, d.source_path);
        assert(index_after(docs, s, b).records =~~= ixp.records.push(
            (d.source_path, doc_aug(s, b, d)),
        ));
        assert forall|i: int| 0 <= i < docs.len() implies (#[trigger] index_after(docs, s, b).records[i])
            == (docs[i].source_path, doc_aug(s, b, docs[i])) by {
            if i < prefix.len() {
                assert(prefix[i] == docs[i]);
            } else {
                assert(docs[i] == d);
            }
        }
    }
}

/// What a full build's tag index holds, for every tag: the tag is
/// present exactly when some document of the batch lists it, and its
/// sequence is exactly one entry per listing document, in discovery
/// order.
pub proof fn lemma_build_tag_index(docs: Seq<DocumentSourceView>, s: Seq<char>, b: Seq<char>)
    requires
        distinct_paths(docs),
    ensures
        forall|k: Seq<char>| #[trigger] has_key(index_after(docs, s, b).tags, k) <==> docs_with_tag(
            docs,
            k,
        ).len() > 0,
        forall|k: Seq<char>| #[trigger] has_key(index_after(docs, s, b).tags, k) ==> lookup(
            index_after(docs, s, b).tags,
            k,
        ) == summaries_of(docs_with_tag(docs, k), s, b),
    decreases docs.len(),
{
    if docs.len() == 0 {
    } else {
        let prefix = docs.drop_last();
        let d = docs.last();
        assert forall|i: int, j: int| 0 <= i < j < prefix.len() implies (#[trigger] prefix[i]).source_path
            != (#[trigger] prefix[j]).source_path by {
            assert(prefix[i] == docs[i]);
            assert(prefix[j] == docs[j]);
        }
        lemma_build_tag_index(prefix, s, b);
        assert(docs =~= prefix.push(d));
        lemma_process_all_snoc(IndexView::empty(), prefix, d, s, b);
        let ixp = index_after(prefix, s, b);
        let tags1 = index_after(docs, s, b).tags;
        let keys = d.frontmatter.tag_list();
        let t = doc_thin(s, b, d);
        assert(tags1 == add_groups(ixp.tags, keys, t));
        lemma_add_groups_effect(ixp.tags, keys, t);
        // an existing group never holds the new document's path
        assert forall|k: Seq<char>| #[trigger] has_key(ixp.tags, k) implies !contains_source(
            lookup(ixp.tags, k),
            t.source_path,
        ) by {
            let lst = lookup(ixp.tags, k);
            let dwt = docs_with_tag(prefix, k);
            assert(lst == summaries_of(dwt, s, b));
            lemma_summaries_shape(dwt, s, b);
            lemma_docs_with_tag_sub(prefix, k);
            if contains_source(lst, t.source_path) {
                let j = choose|j: int| 0 <= j < lst.len() && lst[j].source_path == t.source_path;
                assert(lst[j] == doc_thin(s, b, dwt[j]));
                let i = choose|i: int| 0 <= i < prefix.len() && dwt[j] == prefix[i];
                assert(prefix[i] == docs[i]);
                assert(docs[i].source_path == d.source_path);
                assert(docs[i].source_path != docs[docs.len() - 1].source_path);
            }
        }
        assert forall|k: Seq<char>| #[trigger] has_key(tags1, k) <==> docs_with_tag(docs, k).len()
            > 0 by {
            assert(docs_with_tag(docs, k) == if d.frontmatter.tag_list().contains(k) {
                docs_with_tag(prefix, k).push(d)
            } else {
                docs_with_tag(prefix, k)
            });
            if keys.contains(k) {
                assert(has_key(tags1, k));
            } else {
                assert(has_key(tags1, k) == has_key(ixp.tags, k));
            }
        }
        assert forall|k: Seq<char>| #[trigger] has_key(tags1, k) implies lookup(tags1, k)
            == summaries_of(docs_with_tag(docs, k), s, b) by {
            assert(docs_with_tag(docs, k) == if d.frontmatter.tag_list().contains(k) {
                docs_with_tag(prefix, k).push(d)
            } else {
                docs_with_tag(prefix, k)
            });
            if keys.contains(k) {
                let dwt = docs_with_tag(prefix, k);
                assert(docs_with_tag(docs, k) == dwt.push(d));
                assert(docs_with_tag(docs, k).drop_last() =~= dwt);
                assert(summaries_of(dwt.push(d), s, b) == summaries_of(dwt, s, b).push(t));
                if has_key(ixp.tags, k) {
                    assert(lookup(tags1, k) == lookup(ixp.tags, k).push(t));
                } else {
                    assert(docs_with_tag(prefix, k).len() == 0);
                    assert(dwt =~= Seq::<DocumentSourceView>::empty());
                    assert(summaries_of(dwt, s, b) =~~= Seq::<ThinAugmentedFrontMatterView>::empty());
                    assert(lookup(tags1, k) == seq![t]);
                    assert(summaries_of(dwt, s, b).push(t) =~~= seq![t]);
                }
            } else {
                assert(has_key(tags1, k) == has_key(ixp.tags, k));
                assert(lookup(tags1, k) == lookup(ixp.tags, k));
            }
        }
    }
}

/// What a full build's collection index holds, for every collection:
/// present exactly when some document of the batch lists it, and its
/// sequence is exactly one entry per listing document, in discovery
/// order.
pub proof fn lemma_build_collection_index(docs: Seq<DocumentSourceView>, s: Seq<char>, b: Seq<char>)
    requires
        distinct_paths(docs),
    ensures
        forall|k: Seq<char>| #[trigger] has_key(index_after(docs, s, b).collections, k)
            <==> docs_with_collection(docs, k).len() > 0,
        forall|k: Seq<char>| #[trigger] has_key(index_after(docs, s, b).collections, k) ==> lookup(
            index_after(docs, s, b).collections,
            k,
        ) == summaries_of(docs_with_collection(docs, k), s, b),
    decreases docs.len(),
{
    if docs.len() == 0 {
    } else {
        let prefix = docs.drop_last();
        let d = docs.last();
        assert forall|i: int, j: int| 0 <= i < j < prefix.len() implies (#[trigger] prefix[i]).source_path
            != (#[trigger] prefix[j]).source_path by {
            assert(prefix[i] == docs[i]);
            assert(prefix[j] == docs[j]);
        }
        lemma_build_collection_index(prefix, s, b);
        assert(docs =~= prefix.push(d));
        lemma_process_all_snoc(IndexView::empty(), prefix, d, s, b);
        let ixp = index_after(prefix, s, b);
        let colls1 = index_after(docs, s, b).collections;
        let keys = d.frontmatter.collection_list();
        let t = doc_thin(s, b, d);
        assert(colls1 == add_groups(ixp.collections, keys, t));
        lemma_add_groups_effect(ixp.collections, keys, t);
        assert forall|k: Seq<char>| #[trigger] has_key(ixp.collections, k) implies !contains_source(
            lookup(ixp.collections, k),
            t.source_path,
        ) by {
            let lst = lookup(ixp.collections, k);
            let dwc = docs_with_collection(prefix, k);
            assert(lst == summaries_of(dwc, s, b));
            lemma_summaries_shape(dwc, s, b);
            lemma_docs_with_collection_sub(prefix, k);
            if contains_source(lst, t.source_path) {
                let j = choose|j: int| 0 <= j < lst.len() && lst[j].source_path == t.source_path;
                assert(lst[j] == doc_thin(s, b, dwc[j]));
                let i = choose|i: int| 0 <= i < prefix.len() && dwc[j] == prefix[i];
                assert(prefix[i] == docs[i]);
                assert(docs[i].source_path == d.source_path);
                assert(docs[i].source_path != docs[docs.len() - 1].source_path);
            }
        }
        assert forall|k: Seq<char>| #[trigger] has_key(colls1, k) <==> docs_with_collection(
            docs,
            k,
        ).len() > 0 by {
            assert(docs_with_collection(docs, k) == if d.frontmatter.collection_list().contains(k) {
                docs_with_collection(prefix, k).push(d)
            } else {
                docs_with_collection(prefix, k)
            });
            if keys.contains(k) {
                assert(has_key(colls1, k));
            } else {
                assert(has_key(colls1, k) == has_key(ixp.collections, k));
            }
        }
        assert forall|k: Seq<char>| #[trigger] has_key(colls1, k) implies lookup(colls1, k)
            == summaries_of(docs_with_collection(docs, k), s, b) by {
            assert(docs_with_collection(docs, k) == if d.frontmatter.collection_list().contains(k) {
                docs_with_collection(prefix, k).push(d)
            } else {
                docs_with_collection(prefix, k)
            });
            if keys.contains(k) {
                let dwc = docs_with_collection(prefix, k);
                assert(docs_with_collection(docs, k) == dwc.push(d));
                assert(docs_with_collection(docs, k).drop_last() =~= dwc);
                assert(summaries_of(dwc.push(d), s, b) == summaries_of(dwc, s, b).push(t));
                if has_key(ixp.collections, k) {
                    assert(lookup(colls1, k) == lookup(ixp.collections, k).push(t));
                } else {
                    assert(docs_with_collection(prefix, k).len() == 0);
                    assert(dwc =~= Seq::<DocumentSourceView>::empty());
                    assert(summaries_of(dwc, s, b)
                        =~~= Seq::<ThinAugmentedFrontMatterView>::empty());
                    assert(lookup(colls1, k) == seq![t]);
                    assert(summaries_of(dwc, s, b).push(t) =~~= seq![t]);
                }
            } else {
                assert(has_key(colls1, k) == has_key(ixp.collections, k));
                assert(lookup(colls1, k) == lookup(ixp.collections, k));
            }
        }
    }
}

/// The set of output files a full build writes is a function of the
/// source tree's paths alone: two batches over the same paths, whatever
/// their bodies and metadata, yield the same output path at every
/// position, and it is the computed output path of that source path.
pub proof fn lemma_output_paths_from_tree(
    d1: Seq<DocumentSourceView>,
    d2: Seq<DocumentSourceView>,
    s: Seq<char>,
    b: Seq<char>,
)
    requires
        distinct_paths(d1),
        d1.len() == d2.len(),
        forall|i: int| 0 <= i < d1.len() ==> (#[trigger] d1[i]).source_path == d2[i].source_path,
    ensures
        index_after(d1, s, b).records.len() == index_after(d2, s, b).records.len(),
        forall|i: int| 0 <= i < d1.len() ==> (#[trigger] index_after(d1, s, b).records[i]).1.write_path
            == index_after(d2, s, b).records[i].1.write_path,
        forall|i: int| 0 <= i < d1.len() ==> (#[trigger] index_after(d1, s, b).records[i]).1.write_path
            == write_path_of(s, b, d1[i].source_path),
{
    assert forall|i: int, j: int| 0 <= i < j < d2.len() implies (#[trigger] d2[i]).source_path
        != (#[trigger] d2[j]).source_path by {
        assert(d1[i].source_path == d2[i].source_path);
        assert(d1[j].source_path == d2[j].source_path);
    }
    lemma_build_records(d1, s, b);
    lemma_build_records(d2, s, b);
}

/// A finalized change under the template root is classified as
/// structural, never static or incremental: the rebuild it triggers is
/// the full one, which re-renders every document.
pub proof fn lemma_template_change_is_structural(base: Seq<char>, p: Seq<char>)
    requires
        under_slashed_dir(p, base + templates_suffix()),
    ensures
        spec_classify(
            base + src_suffix(),
            base + static_suffix(),
            base + templates_suffix(),
            p,
            true,
        ) == WatchDecision::FullRebuild,
{
    let td = base + templates_suffix();
    let sd = base + src_suffix();
    let st = base + static_suffix();
    let n = base.len() as int;
    assert(p.subrange(0, td.len() as int)[n + 1] == p[n + 1]);
    assert(td[n + 1] == templates_suffix()[1]);
    if under_dir(p, sd) {
        assert(p.subrange(0, sd.len() as int)[n + 1] == p[n + 1]);
        assert(sd[n + 1] == src_suffix()[1]);
        assert(false);
    }
    if under_dir(p, st) {
        assert(p.subrange(0, st.len() as int)[n + 1] == p[n + 1]);
        assert(st[n + 1] == static_suffix()[1]);
        assert(false);
    }
}

} // verus!
