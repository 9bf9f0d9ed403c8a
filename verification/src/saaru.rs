//! The build instance: the document index, the template environment and
//! the render-time context, with the indexing, rendering and planning
//! operations of a full or incremental build.

use vstd::prelude::*;
use vstd::string::StringExecFns;
use crate::arguments::SaaruArguments;
use crate::frontmatter::AugmentedFrontMatter;
use crate::frontmatter::FrontMatter;
use crate::frontmatter::FrontMatterView;
use crate::frontmatter::ThinAugmentedFrontMatter;
use crate::frontmatter::thin_of;
use crate::index::IndexView;
use crate::index::add_groups;
use crate::index::aug_of;
use crate::index::find_key;
use crate::index::group_insert;
use crate::index::groups_view;
use crate::index::lemma_find_idx_absent;
use crate::index::lemma_find_idx_at;
use crate::index::lemma_process_doc_wf;
use crate::index::has_key;
use crate::index::lemma_upsert_lookup;
use crate::index::lookup;
use crate::index::process_doc;
use crate::index::records_view;
use crate::index::upsert;
use crate::paths::content_path;
use crate::paths::lemma_write_path_link;
use crate::paths::map_relative_path;
use crate::paths::map_write_path;
use crate::render::RenderError;
use crate::render::fm_value;
use crate::render::fresh_template_env;
use crate::render::render_template;
use crate::render::str_value;
use crate::render::value_from_list;
use crate::render::value_from_pairs;

verus! {

/// One source document handed to the pipeline: its path, its parsed
/// frontmatter, and its raw body.
pub struct DocumentSource {
    pub source_path: String,
    pub frontmatter: FrontMatter,
    pub file_content: String,
}

/// Mathematical image of a `DocumentSource`.
pub struct DocumentSourceView {
    pub source_path: Seq<char>,
    pub frontmatter: FrontMatterView,
    pub file_content: Seq<char>,
}

impl View for DocumentSource {
    type V = DocumentSourceView;

    open spec fn view(&self) -> DocumentSourceView {
        DocumentSourceView {
            source_path: self.source_path@,
            frontmatter: self.frontmatter@,
            file_content: self.file_content@,
        }
    }
}

impl DeepView for DocumentSource {
    type V = DocumentSourceView;

    open spec fn deep_view(&self) -> DocumentSourceView {
        self.view()
    }
}

/// The template a document renders with: its own override, or the
/// configured default.
pub open spec fn chosen_template(fm: FrontMatterView, default: Seq<char>) -> Seq<char> {
    match fm.template {
        Some(t) => t,
        None => default,
    }
}

/// The directory component under which tag pages are written.
pub open spec fn tags_dir() -> Seq<char> {
    seq!['/', 't', 'a', 'g', 's', '/']
}

/// The file name of the tag index page.
pub open spec fn index_html_name() -> Seq<char> {
    seq!['i', 'n', 'd', 'e', 'x', '.', 'h', 't', 'm', 'l']
}

/// The output extension with its dot.
pub open spec fn html_ext() -> Seq<char> {
    seq!['.', 'h', 't', 'm', 'l']
}

/// Where the tag index page is written.
pub open spec fn tags_index_path(build_dir: Seq<char>) -> Seq<char> {
    build_dir + tags_dir() + index_html_name()
}

/// Where one tag's detail page is written.
pub open spec fn tag_page_path(build_dir: Seq<char>, tag: Seq<char>) -> Seq<char> {
    build_dir + tags_dir() + tag + html_ext()
}

/// Fold a batch of documents into an index, in order.
pub open spec fn process_all(
    ix: IndexView,
    docs: Seq<DocumentSourceView>,
    source_dir: Seq<char>,
    build_dir: Seq<char>,
) -> IndexView
    decreases docs.len(),
{
    if docs.len() == 0 {
        ix
    } else {
        process_all(
            process_doc(
                ix,
                source_dir,
                build_dir,
                docs[0].source_path,
                docs[0].frontmatter,
                docs[0].file_content,
            ),
            docs.drop_first(),
            source_dir,
            build_dir,
        )
    }
}

/// The index a full build over a batch of documents produces.
pub open spec fn index_after(
    docs: Seq<DocumentSourceView>,
    source_dir: Seq<char>,
    build_dir: Seq<char>,
) -> IndexView {
    process_all(IndexView::empty(), docs, source_dir, build_dir)
}

/// The render-context value for one thin record: its frontmatter and
/// the three path fields under their own names.
fn thin_value(t: &ThinAugmentedFrontMatter) -> minijinja::Value {
    let mut pairs: Vec<(String, minijinja::Value)> = Vec::new();
    pairs.push(("frontmatter".to_owned(), fm_value(&t.frontmatter)));
    pairs.push(("source_path".to_owned(), str_value(t.source_path.as_str())));
    pairs.push(("write_path".to_owned(), str_value(t.write_path.as_str())));
    pairs.push(("link".to_owned(), str_value(t.link.as_str())));
    value_from_pairs(pairs)
}

/// The runtime state of one build instance.
pub struct SaaruInstance {
    pub template_env: minijinja::Environment<'static>,
    pub arguments: SaaruArguments,
    pub collection_map: Vec<(String, Vec<ThinAugmentedFrontMatter>)>,
    pub tag_map: Vec<(String, Vec<ThinAugmentedFrontMatter>)>,
    pub frontmatter_map: Vec<(String, AugmentedFrontMatter)>,
    pub default_template: String,
    pub base_context: minijinja::Value,
    pub global_context: minijinja::Value,
    pub parallel_render_threads: usize,
}

impl SaaruInstance {
    /// The index this instance holds.
    pub open spec fn ix(&self) -> IndexView {
        IndexView {
            records: records_view(self.frontmatter_map@),
            tags: groups_view(self.tag_map@),
            collections: groups_view(self.collection_map@),
        }
    }

    /// Well-formedness: the index invariants hold.
    pub open spec fn wf(&self) -> bool {
        self.ix().wf()
    }

    /// Everything but the index and the render context is unchanged.
    pub open spec fn same_settings(a: SaaruInstance, b: SaaruInstance) -> bool {
        &&& a.template_env == b.template_env
        &&& a.arguments == b.arguments
        &&& a.default_template == b.default_template
        &&& a.global_context == b.global_context
        &&& a.parallel_render_threads == b.parallel_render_threads
    }

    /// A fresh instance: empty index, a template environment resolving
    /// against the configured template directory, and the given default
    /// template name and global configuration context.
    pub fn new(
        args: SaaruArguments,
        default_template: String,
        global_context: minijinja::Value,
    ) -> (inst: SaaruInstance)
        ensures
            inst.wf(),
            inst.ix() == IndexView::empty(),
            inst.arguments == args,
            inst.default_template@ == default_template@,
            inst.global_context == global_context,
            inst.parallel_render_threads == 10,
    {
        let env = fresh_template_env(args.template_dir.as_str());
        let base = crate::render::value_from_pairs(Vec::new());
        let inst = SaaruInstance {
            template_env: env,
            arguments: args,
            collection_map: Vec::new(),
            tag_map: Vec::new(),
            frontmatter_map: Vec::new(),
            default_template,
            base_context: base,
            global_context,
            parallel_render_threads: 10,
        };
        proof {
            assert(records_view(inst.frontmatter_map@) =~~= Seq::empty());
            assert(groups_view(inst.tag_map@) =~~= Seq::empty());
            assert(groups_view(inst.collection_map@) =~~= Seq::empty());
        }
        inst
    }

    /// Replace the template environment with a fresh one resolving
    /// against the configured template directory.
    pub fn set_template_environment(&mut self)
        ensures
            final(self).arguments == old(self).arguments,
            final(self).ix() == old(self).ix(),
            final(self).default_template == old(self).default_template,
            final(self).base_context == old(self).base_context,
            final(self).global_context == old(self).global_context,
            final(self).parallel_render_threads == old(self).parallel_render_threads,
    {
        self.template_env = fresh_template_env(self.arguments.template_dir.as_str());
    }

    /// Drop every record and both group indexes.
    pub fn clear_index(&mut self)
        ensures
            final(self).ix() == IndexView::empty(),
            final(self).wf(),
            final(self).base_context == old(self).base_context,
            Self::same_settings(*final(self), *old(self)),
    {
        self.frontmatter_map = Vec::new();
        self.tag_map = Vec::new();
        self.collection_map = Vec::new();
        proof {
            assert(records_view(self.frontmatter_map@) =~~= Seq::empty());
            assert(groups_view(self.tag_map@) =~~= Seq::empty());
            assert(groups_view(self.collection_map@) =~~= Seq::empty());
        }
    }

    /// The output path of a content file under this instance's source
    /// and build directories.
    pub fn get_write_path(&self, entry_path: &str) -> (r: String)
        requires
            content_path(entry_path@, self.arguments.source_dir@),
        ensures
            r@ == crate::paths::write_path_of(
                self.arguments.source_dir@,
                self.arguments.build_dir@,
                entry_path@,
            ),
    {
        map_write_path(
            self.arguments.source_dir.as_str(),
            self.arguments.build_dir.as_str(),
            entry_path,
        )
    }

    /// The root-relative link of an output path under this instance's
    /// build directory.
    pub fn get_relative_path_from_write_path(&self, write_path: &str) -> (r: String)
        requires
            crate::paths::under_dir(write_path@, self.arguments.build_dir@),
        ensures
            r@ == crate::paths::relative_of(self.arguments.build_dir@, write_path@),
    {
        map_relative_path(self.arguments.build_dir.as_str(), write_path)
    }

    /// Process one parsed document: insert or overwrite its record, and
    /// add its thin projection to each of its tag and collection groups,
    /// never twice for one source path.
    pub fn preprocess_file_data(
        &mut self,
        source_path: &String,
        frontmatter: FrontMatter,
        file_content: String,
    )
        requires
            old(self).wf(),
            content_path(source_path@, old(self).arguments.source_dir@),
        ensures
            final(self).wf(),
            final(self).ix() == process_doc(
                old(self).ix(),
                old(self).arguments.source_dir@,
                old(self).arguments.build_dir@,
                source_path@,
                frontmatter@,
                file_content@,
            ),
            final(self).base_context == old(self).base_context,
            Self::same_settings(*final(self), *old(self)),
    {
        let ghost s_dir = self.arguments.source_dir@;
        let ghost b_dir = self.arguments.build_dir@;
        let ghost fm_v = frontmatter@;
        let ghost content_v = file_content@;
        let ghost ix0 = self.ix();

        let write_path = map_write_path(
            self.arguments.source_dir.as_str(),
            self.arguments.build_dir.as_str(),
            source_path.as_str(),
        );
        proof {
            lemma_write_path_link(s_dir, b_dir, source_path@);
        }
        let relative_build_path = map_relative_path(
            self.arguments.build_dir.as_str(),
            write_path.as_str(),
        );
        let aug = AugmentedFrontMatter {
            frontmatter,
            source_path: source_path.clone(),
            file_content,
            write_path,
            relative_build_path,
        };
        let ghost aug_v = aug@;
        proof {
            assert(aug_v == aug_of(s_dir, b_dir, source_path@, fm_v, content_v));
        }
        let tag_copy = aug.clone();
        let ghost t_v = thin_of(aug_v);

        match find_key(&self.frontmatter_map, source_path) {
            Some(i) => {
                proof {
                    lemma_find_idx_at(ix0.records, source_path@, i as int);
                }
                self.frontmatter_map.set(i, (source_path.clone(), aug));
                proof {
                    assert(records_view(self.frontmatter_map@) =~~= upsert(
                        ix0.records,
                        source_path@,
                        aug_v,
                    ));
                }
            },
            None => {
                proof {
                    lemma_find_idx_absent(ix0.records, source_path@);
                }
                self.frontmatter_map.push((source_path.clone(), aug));
                proof {
                    assert(records_view(self.frontmatter_map@) =~~= upsert(
                        ix0.records,
                        source_path@,
                        aug_v,
                    ));
                }
            },
        }
        let ghost recs1 = records_view(self.frontmatter_map@);

        match &tag_copy.frontmatter.tags {
            Some(tag_list) => {
                let ghost keys = tag_list.deep_view();
                proof {
                    assert(fm_v.tag_list() == keys);
                }
                let mut k: usize = 0;
                proof {
                    assert(keys.skip(0) =~~= keys);
                }
                while k < tag_list.len()
                    invariant
                        k <= tag_list.len(),
                        keys == tag_list.deep_view(),
                        tag_copy@ == aug_v,
                        t_v == thin_of(aug_v),
                        add_groups(ix0.tags, keys, t_v) == add_groups(
                            groups_view(self.tag_map@),
                            keys.skip(k as int),
                            t_v,
                        ),
                        records_view(self.frontmatter_map@) == recs1,
                        groups_view(self.collection_map@) == ix0.collections,
                        self.base_context == old(self).base_context,
                        Self::same_settings(*self, *old(self)),
                    decreases tag_list.len() - k,
                {
                    let thin = ThinAugmentedFrontMatter::from(tag_copy.clone());
                    proof {
                        assert(thin@ == t_v);
                        assert(keys.skip(k as int)[0] == keys[k as int]);
                        assert(keys.skip(k as int).drop_first() =~~= keys.skip(k as int + 1));
                    }
                    group_insert(&mut self.tag_map, &tag_list[k], thin);
                    k = k + 1;
                }
                proof {
                    assert(keys.skip(tag_list.len() as int) =~~= Seq::<Seq<char>>::empty());
                }
            },
            None => {
                proof {
                    assert(fm_v.tag_list() =~= Seq::<Seq<char>>::empty());
                }
            },
        }
        proof {
            assert(groups_view(self.tag_map@) == add_groups(ix0.tags, fm_v.tag_list(), t_v));
        }
        let ghost tags1 = groups_view(self.tag_map@);

        match &tag_copy.frontmatter.collections {
            Some(coll_list) => {
                let ghost keys = coll_list.deep_view();
                proof {
                    assert(fm_v.collection_list() == keys);
                }
                let mut k: usize = 0;
                proof {
                    assert(keys.skip(0) =~~= keys);
                }
                while k < coll_list.len()
                    invariant
                        k <= coll_list.len(),
                        keys == coll_list.deep_view(),
                        tag_copy@ == aug_v,
                        t_v == thin_of(aug_v),
                        add_groups(ix0.collections, keys, t_v) == add_groups(
                            groups_view(self.collection_map@),
                            keys.skip(k as int),
                            t_v,
                        ),
                        records_view(self.frontmatter_map@) == recs1,
                        groups_view(self.tag_map@) == tags1,
                        self.base_context == old(self).base_context,
                        Self::same_settings(*self, *old(self)),
                    decreases coll_list.len() - k,
                {
                    let thin = ThinAugmentedFrontMatter::from(tag_copy.clone());
                    proof {
                        assert(thin@ == t_v);
                        assert(keys.skip(k as int)[0] == keys[k as int]);
                        assert(keys.skip(k as int).drop_first() =~~= keys.skip(k as int + 1));
                    }
                    group_insert(&mut self.collection_map, &coll_list[k], thin);
                    k = k + 1;
                }
                proof {
                    assert(keys.skip(coll_list.len() as int) =~~= Seq::<Seq<char>>::empty());
                }
            },
            None => {
                proof {
                    assert(fm_v.collection_list() =~= Seq::<Seq<char>>::empty());
                }
            },
        }
        proof {
            assert(groups_view(self.collection_map@) == add_groups(
                ix0.collections,
                fm_v.collection_list(),
                t_v,
            ));
            lemma_process_doc_wf(ix0, s_dir, b_dir, source_path@, fm_v, content_v);
            assert(self.ix() == process_doc(ix0, s_dir, b_dir, source_path@, fm_v, content_v));
        }
    }

    /// The stored record of a source path, if one is held.
    pub fn get_frontmatter(&self, source_path: &String) -> (r: Option<&AugmentedFrontMatter>)
        ensures
            match r {
                Some(record) => has_key(self.ix().records, source_path@) && record@ == lookup(
                    self.ix().records,
                    source_path@,
                ),
                None => !has_key(self.ix().records, source_path@),
            },
    {
        match find_key(&self.frontmatter_map, source_path) {
            Some(i) => {
                proof {
                    lemma_find_idx_at(records_view(self.frontmatter_map@), source_path@, i as int);
                }
                Some(&self.frontmatter_map[i].1)
            },
            None => {
                proof {
                    lemma_find_idx_absent(records_view(self.frontmatter_map@), source_path@);
                }
                None
            },
        }
    }

    /// The entries of one tag's group, if the tag is indexed.
    pub fn get_tag_entries(&self, tag: &String) -> (r: Option<&Vec<ThinAugmentedFrontMatter>>)
        ensures
            match r {
                Some(list) => has_key(self.ix().tags, tag@) && list.deep_view() == lookup(
                    self.ix().tags,
                    tag@,
                ),
                None => !has_key(self.ix().tags, tag@),
            },
    {
        match find_key(&self.tag_map, tag) {
            Some(i) => {
                proof {
                    lemma_find_idx_at(groups_view(self.tag_map@), tag@, i as int);
                }
                Some(&self.tag_map[i].1)
            },
            None => {
                proof {
                    lemma_find_idx_absent(groups_view(self.tag_map@), tag@);
                }
                None
            },
        }
    }

    /// The entries of one collection's group, if the collection is
    /// indexed.
    pub fn get_collection_entries(&self, collection: &String) -> (r: Option<
        &Vec<ThinAugmentedFrontMatter>,
    >)
        ensures
            match r {
                Some(list) => has_key(self.ix().collections, collection@) && list.deep_view()
                    == lookup(self.ix().collections, collection@),
                None => !has_key(self.ix().collections, collection@),
            },
    {
        match find_key(&self.collection_map, collection) {
            Some(i) => {
                proof {
                    lemma_find_idx_at(groups_view(self.collection_map@), collection@, i as int);
                }
                Some(&self.collection_map[i].1)
            },
            None => {
                proof {
                    lemma_find_idx_absent(groups_view(self.collection_map@), collection@);
                }
                None
            },
        }
    }

    /// The template name a document renders with: its frontmatter
    /// override when present, else the configured default.
    pub fn template_name_for(&self, fm: &FrontMatter) -> (r: String)
        ensures
            r@ == chosen_template(fm@, self.default_template@),
    {
        match &fm.template {
            Some(t) => t.clone(),
            None => self.default_template.clone(),
        }
    }

    /// Convert a document body to HTML through the markdown collaborator.
    pub fn convert_markdown_to_html(&self, markdown: &String) -> (r: String)
        ensures
            r@ == crate::markdown::html_of(markdown@),
    {
        crate::markdown::markdown_html(markdown.as_str())
    }

    /// Render one record: its body through the markdown collaborator,
    /// then its chosen template over the frontmatter, the produced HTML
    /// and the shared base context. Which template resolves and what it
    /// expands to is the template collaborator's to decide; a resolution
    /// failure or an expansion failure is returned, never swallowed.
    pub fn render_file_from_frontmatter(
        &self,
        input_aug_frontmatter: &AugmentedFrontMatter,
    ) -> (r: Result<String, RenderError>)
    {
        let html_output = self.convert_markdown_to_html(&input_aug_frontmatter.file_content);
        let mut pairs: Vec<(String, minijinja::Value)> = Vec::new();
        pairs.push(("frontmatter".to_owned(), fm_value(&input_aug_frontmatter.frontmatter)));
        pairs.push(("postcontent".to_owned(), str_value(html_output.as_str())));
        pairs.push(("base".to_owned(), self.base_context.clone()));
        let ctx = value_from_pairs(pairs);
        let name = self.template_name_for(&input_aug_frontmatter.frontmatter);
        render_template(&self.template_env, name.as_str(), &ctx)
    }

    /// Render every record in store order: on success, exactly one
    /// output per record, at that record's write path. A single failure
    /// aborts the whole pass.
    pub fn render_all_files(&self) -> (r: Result<Vec<(String, String)>, RenderError>)
        ensures
            r matches Ok(outs) ==> outs@.len() == self.ix().records.len() && forall|i: int|
                0 <= i < outs@.len() ==> (#[trigger] outs@[i]).0@
                    == self.ix().records[i].1.write_path,
            self.ix().records.len() == 0 ==> r is Ok,
    {
        let mut outs: Vec<(String, String)> = Vec::new();
        let mut i: usize = 0;
        while i < self.frontmatter_map.len()
            invariant
                i <= self.frontmatter_map.len(),
                outs@.len() == i,
                forall|j: int| 0 <= j < i ==> (#[trigger] outs@[j]).0@
                    == records_view(self.frontmatter_map@)[j].1.write_path,
            decreases self.frontmatter_map.len() - i,
        {
            let record = &self.frontmatter_map[i].1;
            let html = match self.render_file_from_frontmatter(record) {
                Ok(h) => h,
                Err(e) => {
                    return Err(e);
                },
            };
            outs.push((record.write_path.clone(), html));
            i = i + 1;
        }
        Ok(outs)
    }

    /// Re-process one changed document and render it alone: the index is
    /// patched exactly as by `preprocess_file_data`, and on success the
    /// one output stands at that document's write path.
    pub fn render_individual_file(
        &mut self,
        source_path: &String,
        frontmatter: FrontMatter,
        file_content: String,
    ) -> (r: Result<(String, String), RenderError>)
        requires
            old(self).wf(),
            content_path(source_path@, old(self).arguments.source_dir@),
        ensures
            final(self).wf(),
            final(self).ix() == process_doc(
                old(self).ix(),
                old(self).arguments.source_dir@,
                old(self).arguments.build_dir@,
                source_path@,
                frontmatter@,
                file_content@,
            ),
            final(self).base_context == old(self).base_context,
            Self::same_settings(*final(self), *old(self)),
            r matches Ok(out) ==> out.0@ == crate::paths::write_path_of(
                old(self).arguments.source_dir@,
                old(self).arguments.build_dir@,
                source_path@,
            ),
    {
        let ghost s_dir = self.arguments.source_dir@;
        let ghost b_dir = self.arguments.build_dir@;
        let ghost ix0 = self.ix();
        let ghost fm_v = frontmatter@;
        let ghost content_v = file_content@;
        self.preprocess_file_data(source_path, frontmatter, file_content);
        proof {
            lemma_upsert_lookup(
                ix0.records,
                source_path@,
                aug_of(s_dir, b_dir, source_path@, fm_v, content_v),
            );
            crate::index::lemma_find_idx(records_view(self.frontmatter_map@), source_path@);
        }
        match find_key(&self.frontmatter_map, source_path) {
            Some(i) => {
                proof {
                    lemma_find_idx_at(records_view(self.frontmatter_map@), source_path@, i as int);
                }
                let html = match self.render_file_from_frontmatter(&self.frontmatter_map[i].1) {
                    Ok(h) => h,
                    Err(e) => {
                        return Err(e);
                    },
                };
                Ok((self.frontmatter_map[i].1.write_path.clone(), html))
            },
            None => {
                proof {
                    assert(false);
                }
                Err(RenderError::RenderFailed)
            },
        }
    }

    /// Render the tag index page and one detail page per tag, in index
    /// order: on success, the first output is the tag index page and the
    /// rest stand at each tag's page path.
    pub fn render_tags_pages(&self) -> (r: Result<Vec<(String, String)>, RenderError>)
        ensures
            r matches Ok(outs) ==> outs@.len() == self.ix().tags.len() + 1 && outs@[0].0@
                == tags_index_path(self.arguments.build_dir@) && forall|i: int|
                1 <= i < outs@.len() ==> (#[trigger] outs@[i]).0@ == tag_page_path(
                    self.arguments.build_dir@,
                    self.ix().tags[i - 1].0,
                ),
    {
        let mut outs: Vec<(String, String)> = Vec::new();
        let mut pairs: Vec<(String, minijinja::Value)> = Vec::new();
        pairs.push(("base".to_owned(), self.base_context.clone()));
        let ctx = value_from_pairs(pairs);
        let html = match render_template(&self.template_env, "tags.jinja", &ctx) {
            Ok(h) => h,
            Err(e) => {
                return Err(e);
            },
        };
        let index_path = self.arguments.build_dir.clone().concat("/tags/").concat("index.html");
        proof {
            reveal_strlit("/tags/");
            reveal_strlit("index.html");
            assert(("/tags/")@ =~= tags_dir());
            assert(("index.html")@ =~= index_html_name());
        }
        outs.push((index_path, html));
        let mut i: usize = 0;
        while i < self.tag_map.len()
            invariant
                i <= self.tag_map.len(),
                outs@.len() == i + 1,
                outs@[0].0@ == tags_index_path(self.arguments.build_dir@),
                forall|j: int| 1 <= j < outs@.len() ==> (#[trigger] outs@[j]).0@ == tag_page_path(
                    self.arguments.build_dir@,
                    groups_view(self.tag_map@)[j - 1].0,
                ),
            decreases self.tag_map.len() - i,
        {
            let list = &self.tag_map[i].1;
            let mut items: Vec<minijinja::Value> = Vec::new();
            let mut j: usize = 0;
            while j < list.len()
                invariant
                    j <= list.len(),
                decreases list.len() - j,
            {
                items.push(thin_value(&list[j]));
                j = j + 1;
            }
            let key = &self.tag_map[i].0;
            let mut pairs2: Vec<(String, minijinja::Value)> = Vec::new();
            pairs2.push(("tag".to_owned(), str_value(key.as_str())));
            pairs2.push(("posts".to_owned(), value_from_list(items)));
            pairs2.push(("base".to_owned(), self.base_context.clone()));
            let ctx2 = value_from_pairs(pairs2);
            let html2 = match render_template(&self.template_env, "tags_page.jinja", &ctx2) {
                Ok(h) => h,
                Err(e) => {
                    return Err(e);
                },
            };
            let page_path = self.arguments.build_dir.clone().concat("/tags/").concat(
                key.as_str(),
            ).concat(".html");
            proof {
                reveal_strlit("/tags/");
                reveal_strlit(".html");
                assert(("/tags/")@ =~= tags_dir());
                assert((".html")@ =~= html_ext());
            }
            outs.push((page_path, html2));
            i = i + 1;
        }
        Ok(outs)
    }

    /// The dispatch plan for a parallel render pass: every record exactly
    /// once, in store order, followed by one end-of-work sentinel per
    /// worker, so a worker that takes a sentinel stops and the queue
    /// never looks empty while work is still being dispatched.
    pub fn build_render_queue(&self) -> (q: Vec<Option<(String, AugmentedFrontMatter)>>)
        ensures
            q@.len() == self.ix().records.len() + self.parallel_render_threads,
            forall|i: int| 0 <= i < self.ix().records.len() ==> ((#[trigger] q@[i]) matches Some(
                p,
            ) && p.0@ == self.ix().records[i].0 && p.1@ == self.ix().records[i].1),
            forall|i: int| self.ix().records.len() <= i < q@.len() ==> (#[trigger] q@[i]) is None,
    {
        let mut q: Vec<Option<(String, AugmentedFrontMatter)>> = Vec::new();
        let mut i: usize = 0;
        while i < self.frontmatter_map.len()
            invariant
                i <= self.frontmatter_map.len(),
                q@.len() == i,
                forall|j: int| 0 <= j < i ==> ((#[trigger] q@[j]) matches Some(p) && p.0@
                    == records_view(self.frontmatter_map@)[j].0 && p.1@
                    == records_view(self.frontmatter_map@)[j].1),
            decreases self.frontmatter_map.len() - i,
        {
            let pair = &self.frontmatter_map[i];
            q.push(Some((pair.0.clone(), pair.1.clone())));
            i = i + 1;
        }
        let mut k: usize = 0;
        while k < self.parallel_render_threads
            invariant
                k <= self.parallel_render_threads,
                q@.len() == self.frontmatter_map@.len() + k,
                forall|j: int| 0 <= j < self.frontmatter_map@.len() ==> ((#[trigger] q@[j])
                    matches Some(p) && p.0@ == records_view(self.frontmatter_map@)[j].0 && p.1@
                    == records_view(self.frontmatter_map@)[j].1),
                forall|j: int| self.frontmatter_map@.len() <= j < q@.len() ==> (#[trigger] q@[j])
                    is None,
            decreases self.parallel_render_threads - k,
        {
            q.push(None);
            k = k + 1;
        }
        q
    }

    /// Rebuild the shared base context from the current tag and
    /// collection indexes and the global configuration context. The index
    /// itself is untouched.
    pub fn build_base_context(&mut self)
        ensures
            final(self).ix() == old(self).ix(),
            final(self).wf() == old(self).wf(),
            Self::same_settings(*final(self), *old(self)),
    {
        let mut tag_pairs: Vec<(String, minijinja::Value)> = Vec::new();
        let mut i: usize = 0;
        while i < self.tag_map.len()
            invariant
                i <= self.tag_map.len(),
            decreases self.tag_map.len() - i,
        {
            let list = &self.tag_map[i].1;
            let mut items: Vec<minijinja::Value> = Vec::new();
            let mut j: usize = 0;
            while j < list.len()
                invariant
                    j <= list.len(),
                decreases list.len() - j,
            {
                items.push(thin_value(&list[j]));
                j = j + 1;
            }
            tag_pairs.push((self.tag_map[i].0.clone(), value_from_list(items)));
            i = i + 1;
        }
        let mut coll_pairs: Vec<(String, minijinja::Value)> = Vec::new();
        let mut i2: usize = 0;
        while i2 < self.collection_map.len()
            invariant
                i2 <= self.collection_map.len(),
            decreases self.collection_map.len() - i2,
        {
            let list = &self.collection_map[i2].1;
            let mut items: Vec<minijinja::Value> = Vec::new();
            let mut j: usize = 0;
            while j < list.len()
                invariant
                    j <= list.len(),
                decreases list.len() - j,
            {
                items.push(thin_value(&list[j]));
                j = j + 1;
            }
            coll_pairs.push((self.collection_map[i2].0.clone(), value_from_list(items)));
            i2 = i2 + 1;
        }
        let mut base_pairs: Vec<(String, minijinja::Value)> = Vec::new();
        base_pairs.push(("tags".to_owned(), value_from_pairs(tag_pairs)));
        base_pairs.push(("collections".to_owned(), value_from_pairs(coll_pairs)));
        base_pairs.push(("json".to_owned(), self.global_context.clone()));
        self.base_context = value_from_pairs(base_pairs);
    }

    /// The full build: clear the index, fold every document into it,
    /// rebuild the base context, render every record and then the tag
    /// pages. The resulting index is exactly the fold of the batch, also
    /// when a render fails; on success the outputs are each record's
    /// page, the tag index page, and one page per tag, in that order.
    pub fn render_pipeline(&mut self, documents: Vec<DocumentSource>) -> (r: Result<
        Vec<(String, String)>,
        RenderError,
    >)
        requires
            forall|i: int| 0 <= i < documents@.len() ==> content_path(
                (#[trigger] documents@[i])@.source_path,
                old(self).arguments.source_dir@,
            ),
        ensures
            final(self).wf(),
            final(self).ix() == index_after(
                documents.deep_view(),
                old(self).arguments.source_dir@,
                old(self).arguments.build_dir@,
            ),
            Self::same_settings(*final(self), *old(self)),
            r matches Ok(outs) ==> {
                let recs = final(self).ix().records;
                let tags = final(self).ix().tags;
                &&& outs@.len() == recs.len() + tags.len() + 1
                &&& forall|i: int| 0 <= i < recs.len() ==> (#[trigger] outs@[i]).0@
                    == recs[i].1.write_path
                &&& outs@[recs.len() as int].0@ == tags_index_path(
                    final(self).arguments.build_dir@,
                )
                &&& forall|i: int| recs.len() < i < outs@.len() ==> (#[trigger] outs@[i]).0@
                    == tag_page_path(
                        final(self).arguments.build_dir@,
                        tags[i - recs.len() - 1].0,
                    )
            },
    {
        let ghost docs_v = documents.deep_view();
        let ghost s_dir = self.arguments.source_dir@;
        let ghost b_dir = self.arguments.build_dir@;
        self.clear_index();
        proof {
            assert(docs_v.skip(0) =~~= docs_v);
        }
        let mut i: usize = 0;
        while i < documents.len()
            invariant
                i <= documents@.len(),
                docs_v == documents.deep_view(),
                self.wf(),
                forall|j: int| 0 <= j < documents@.len() ==> content_path(
                    (#[trigger] documents@[j])@.source_path,
                    old(self).arguments.source_dir@,
                ),
                s_dir == old(self).arguments.source_dir@,
                b_dir == old(self).arguments.build_dir@,
                index_after(docs_v, s_dir, b_dir) == process_all(
                    self.ix(),
                    docs_v.skip(i as int),
                    s_dir,
                    b_dir,
                ),
                Self::same_settings(*self, *old(self)),
            decreases documents@.len() - i,
        {
            let doc = &documents[i];
            let fm = doc.frontmatter.clone();
            let content = doc.file_content.clone();
            proof {
                assert(docs_v.skip(i as int)[0] == docs_v[i as int]);
                assert(docs_v.skip(i as int).drop_first() =~~= docs_v.skip(i as int + 1));
                assert(docs_v[i as int] == documents@[i as int]@);
            }
            self.preprocess_file_data(&doc.source_path, fm, content);
            i = i + 1;
        }
        proof {
            assert(docs_v.skip(documents@.len() as int) =~~= Seq::<DocumentSourceView>::empty());
        }
        self.build_base_context();
        let mut outs = match self.render_all_files() {
            Ok(o) => o,
            Err(e) => {
                return Err(e);
            },
        };
        let mut tag_pages = match self.render_tags_pages() {
            Ok(o) => o,
            Err(e) => {
                return Err(e);
            },
        };
        let ghost recs_n = self.ix().records.len();
        outs.append(&mut tag_pages);
        Ok(outs)
    }
}

} // verus!
