//! The metadata carried by a content document, and the records the index
//! stores: the full per-document record and its thin projection used
//! inside the tag and collection indexes.

use vstd::prelude::*;

verus! {

/// Parsed frontmatter of one document. Every field but the free-form
/// `meta` blob is structured; `meta` carries raw JSON text for the
/// template engine. Absence of any field is an ordinary state.
pub struct FrontMatter {
    pub title: Option<String>,
    pub description: Option<String>,
    pub date: Option<String>,
    pub tags: Option<Vec<String>>,
    pub collections: Option<Vec<String>>,
    pub wip: Option<bool>,
    pub template: Option<String>,
    pub link: Option<String>,
    pub meta: Option<String>,
}

/// Mathematical image of a `FrontMatter`.
pub struct FrontMatterView {
    pub title: Option<Seq<char>>,
    pub description: Option<Seq<char>>,
    pub date: Option<Seq<char>>,
    pub tags: Option<Seq<Seq<char>>>,
    pub collections: Option<Seq<Seq<char>>>,
    pub wip: Option<bool>,
    pub template: Option<Seq<char>>,
    pub link: Option<Seq<char>>,
    pub meta: Option<Seq<char>>,
}

impl View for FrontMatter {
    type V = FrontMatterView;

    open spec fn view(&self) -> FrontMatterView {
        FrontMatterView {
            title: self.title.deep_view(),
            description: self.description.deep_view(),
            date: self.date.deep_view(),
            tags: self.tags.deep_view(),
            collections: self.collections.deep_view(),
            wip: self.wip.deep_view(),
            template: self.template.deep_view(),
            link: self.link.deep_view(),
            meta: self.meta.deep_view(),
        }
    }
}

impl FrontMatterView {
    /// The tag list, with absence read as the empty list.
    pub open spec fn tag_list(self) -> Seq<Seq<char>> {
        match self.tags {
            Some(ts) => ts,
            None => Seq::empty(),
        }
    }

    /// The collection list, with absence read as the empty list.
    pub open spec fn collection_list(self) -> Seq<Seq<char>> {
        match self.collections {
            Some(cs) => cs,
            None => Seq::empty(),
        }
    }
}

fn clone_opt_string(o: &Option<String>) -> (r: Option<String>)
    ensures
        r.deep_view() == o.deep_view(),
{
    match o {
        Some(s) => Some(s.clone()),
        None => None,
    }
}

fn clone_opt_string_vec(o: &Option<Vec<String>>) -> (r: Option<Vec<String>>)
    ensures
        r.deep_view() == o.deep_view(),
{
    match o {
        Some(v) => {
            let c = v.clone();
            proof {
                assert(c.deep_view() =~~= v.deep_view());
            }
            Some(c)
        },
        None => None,
    }
}

impl Clone for FrontMatter {
    /// A clone has the same view.
    fn clone(&self) -> (res: Self)
        ensures
            res@ == self@,
    {
        let res = FrontMatter {
            title: clone_opt_string(&self.title),
            description: clone_opt_string(&self.description),
            date: clone_opt_string(&self.date),
            tags: clone_opt_string_vec(&self.tags),
            collections: clone_opt_string_vec(&self.collections),
            wip: match &self.wip {
                Some(b) => Some(*b),
                None => None,
            },
            template: clone_opt_string(&self.template),
            link: clone_opt_string(&self.link),
            meta: clone_opt_string(&self.meta),
        };
        res
    }
}

/// Full record of one processed document: its metadata, raw body, and the
/// source, output and link paths computed for it.
pub struct AugmentedFrontMatter {
    pub frontmatter: FrontMatter,
    pub source_path: String,
    pub file_content: String,
    pub write_path: String,
    pub relative_build_path: String,
}

/// Mathematical image of an `AugmentedFrontMatter`.
pub struct AugmentedFrontMatterView {
    pub frontmatter: FrontMatterView,
    pub source_path: Seq<char>,
    pub file_content: Seq<char>,
    pub write_path: Seq<char>,
    pub relative_build_path: Seq<char>,
}

impl View for AugmentedFrontMatter {
    type V = AugmentedFrontMatterView;

    open spec fn view(&self) -> AugmentedFrontMatterView {
        AugmentedFrontMatterView {
            frontmatter: self.frontmatter@,
            source_path: self.source_path@,
            file_content: self.file_content@,
            write_path: self.write_path@,
            relative_build_path: self.relative_build_path@,
        }
    }
}

impl Clone for AugmentedFrontMatter {
    /// A clone has the same view.
    fn clone(&self) -> (res: Self)
        ensures
            res@ == self@,
    {
        AugmentedFrontMatter {
            frontmatter: self.frontmatter.clone(),
            source_path: self.source_path.clone(),
            file_content: self.file_content.clone(),
            write_path: self.write_path.clone(),
            relative_build_path: self.relative_build_path.clone(),
        }
    }
}

/// Thin projection of a record held inside the tag and collection
/// indexes: everything but the raw body.
pub struct ThinAugmentedFrontMatter {
    pub frontmatter: FrontMatter,
    pub source_path: String,
    pub write_path: String,
    pub link: String,
}

/// Mathematical image of a `ThinAugmentedFrontMatter`.
pub struct ThinAugmentedFrontMatterView {
    pub frontmatter: FrontMatterView,
    pub source_path: Seq<char>,
    pub write_path: Seq<char>,
    pub link: Seq<char>,
}

impl View for ThinAugmentedFrontMatter {
    type V = ThinAugmentedFrontMatterView;

    open spec fn view(&self) -> ThinAugmentedFrontMatterView {
        ThinAugmentedFrontMatterView {
            frontmatter: self.frontmatter@,
            source_path: self.source_path@,
            write_path: self.write_path@,
            link: self.link@,
        }
    }
}

impl DeepView for ThinAugmentedFrontMatter {
    type V = ThinAugmentedFrontMatterView;

    open spec fn deep_view(&self) -> ThinAugmentedFrontMatterView {
        self.view()
    }
}

impl Clone for ThinAugmentedFrontMatter {
    /// A clone has the same view.
    fn clone(&self) -> (res: Self)
        ensures
            res@ == self@,
    {
        ThinAugmentedFrontMatter {
            frontmatter: self.frontmatter.clone(),
            source_path: self.source_path.clone(),
            write_path: self.write_path.clone(),
            link: self.link.clone(),
        }
    }
}

/// The projection a full record contributes to an index entry: the link
/// field is the record's build-relative path.
pub open spec fn thin_of(a: AugmentedFrontMatterView) -> ThinAugmentedFrontMatterView {
    ThinAugmentedFrontMatterView {
        frontmatter: a.frontmatter,
        source_path: a.source_path,
        write_path: a.write_path,
        link: a.relative_build_path,
    }
}

impl vstd::std_specs::convert::FromSpecImpl<AugmentedFrontMatter> for ThinAugmentedFrontMatter {
    open spec fn obeys_from_spec() -> bool {
        true
    }

    open spec fn from_spec(full: AugmentedFrontMatter) -> Self {
        ThinAugmentedFrontMatter {
            frontmatter: full.frontmatter,
            source_path: full.source_path,
            write_path: full.write_path,
            link: full.relative_build_path,
        }
    }
}

impl From<AugmentedFrontMatter> for ThinAugmentedFrontMatter {
    /// Project a full record down to its index entry.
    fn from(full: AugmentedFrontMatter) -> (thin: Self) {
        ThinAugmentedFrontMatter {
            frontmatter: full.frontmatter,
            source_path: full.source_path,
            write_path: full.write_path,
            link: full.relative_build_path,
        }
    }
}

} // verus!
