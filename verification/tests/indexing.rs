use saaru::arguments::SaaruArguments;
use saaru::frontmatter::FrontMatter;
use saaru::frontmatter::ThinAugmentedFrontMatter;
use saaru::saaru::SaaruInstance;

fn fm(title: &str, tags: Option<Vec<&str>>, collections: Option<Vec<&str>>) -> FrontMatter {
    FrontMatter {
        title: Some(title.to_owned()),
        description: Some("d".to_owned()),
        date: None,
        tags: tags.map(|ts| ts.into_iter().map(|t| t.to_owned()).collect()),
        collections: collections.map(|cs| cs.into_iter().map(|c| c.to_owned()).collect()),
        wip: None,
        template: None,
        link: None,
        meta: None,
    }
}

fn instance() -> SaaruInstance {
    let args = SaaruArguments::new("/site".to_owned(), false, false);
    SaaruInstance::new(args, "post.jinja".to_owned(), minijinja::Value::UNDEFINED)
}

#[test]
fn arguments_derive_the_four_directories() {
    let args = SaaruArguments::new("/site".to_owned(), true, false);
    assert_eq!(args.base_dir, "/site");
    assert_eq!(args.template_dir, "/site/templates/");
    assert_eq!(args.source_dir, "/site/src");
    assert_eq!(args.static_dir, "/site/static");
    assert_eq!(args.build_dir, "/site/build");
    assert!(args.live_reload);
    assert!(!args.live_rerender);
}

#[test]
fn write_path_replaces_root_and_extension() {
    let inst = instance();
    let wp = inst.get_write_path("/site/src/posts/a.md");
    assert_eq!(wp, "/site/build/posts/a.html");
    let link = inst.get_relative_path_from_write_path(&wp);
    assert_eq!(link, "/posts/a.html");
}

#[test]
fn write_path_keeps_extra_dots() {
    let inst = instance();
    assert_eq!(inst.get_write_path("/site/src/a.tar.md"), "/site/build/a.tar.html");
}

#[test]
fn two_documents_sharing_a_tag_appear_in_discovery_order() {
    let mut inst = instance();
    inst.preprocess_file_data(
        &"/site/src/a.md".to_owned(),
        fm("A", Some(vec!["x"]), None),
        "body a".to_owned(),
    );
    inst.preprocess_file_data(
        &"/site/src/b.md".to_owned(),
        fm("B", Some(vec!["x", "y"]), None),
        "body b".to_owned(),
    );
    assert_eq!(inst.frontmatter_map.len(), 2);
    assert_eq!(inst.frontmatter_map[0].0, "/site/src/a.md");
    assert_eq!(inst.frontmatter_map[0].1.write_path, "/site/build/a.html");
    assert_eq!(inst.frontmatter_map[1].1.write_path, "/site/build/b.html");

    assert_eq!(inst.tag_map.len(), 2);
    let x: &(String, Vec<ThinAugmentedFrontMatter>) = &inst.tag_map[0];
    assert_eq!(x.0, "x");
    assert_eq!(x.1.len(), 2);
    assert_eq!(x.1[0].source_path, "/site/src/a.md");
    assert_eq!(x.1[1].source_path, "/site/src/b.md");
    let y = &inst.tag_map[1];
    assert_eq!(y.0, "y");
    assert_eq!(y.1.len(), 1);
    assert_eq!(y.1[0].source_path, "/site/src/b.md");
    assert_eq!(y.1[0].link, "/b.html");
}

#[test]
fn reprocessing_a_document_does_not_duplicate_its_entries() {
    let mut inst = instance();
    for _ in 0..2 {
        inst.preprocess_file_data(
            &"/site/src/a.md".to_owned(),
            fm("A", Some(vec!["x"]), Some(vec!["c"])),
            "body".to_owned(),
        );
    }
    assert_eq!(inst.frontmatter_map.len(), 1);
    assert_eq!(inst.tag_map.len(), 1);
    assert_eq!(inst.tag_map[0].1.len(), 1);
    assert_eq!(inst.collection_map.len(), 1);
    assert_eq!(inst.collection_map[0].1.len(), 1);
}

#[test]
fn a_document_without_tags_or_collections_joins_no_index() {
    let mut inst = instance();
    inst.preprocess_file_data(
        &"/site/src/plain.md".to_owned(),
        fm("Plain", None, None),
        "body".to_owned(),
    );
    assert_eq!(inst.frontmatter_map.len(), 1);
    assert!(inst.tag_map.is_empty());
    assert!(inst.collection_map.is_empty());
}

#[test]
fn reprocessing_overwrites_the_stored_body() {
    let mut inst = instance();
    let path = "/site/src/a.md".to_owned();
    inst.preprocess_file_data(&path, fm("A", None, None), "old body".to_owned());
    inst.preprocess_file_data(&path, fm("A", None, None), "new body".to_owned());
    assert_eq!(inst.frontmatter_map.len(), 1);
    assert_eq!(inst.frontmatter_map[0].1.file_content, "new body");
}

#[test]
fn clear_index_drops_everything() {
    let mut inst = instance();
    inst.preprocess_file_data(
        &"/site/src/a.md".to_owned(),
        fm("A", Some(vec!["x"]), Some(vec!["c"])),
        "body".to_owned(),
    );
    inst.clear_index();
    assert!(inst.frontmatter_map.is_empty());
    assert!(inst.tag_map.is_empty());
    assert!(inst.collection_map.is_empty());
}

#[test]
fn thin_projection_moves_the_relative_path_into_link() {
    let mut inst = instance();
    inst.preprocess_file_data(
        &"/site/src/a.md".to_owned(),
        fm("A", None, None),
        "body".to_owned(),
    );
    let full = inst.frontmatter_map[0].1.clone();
    let thin = ThinAugmentedFrontMatter::from(full.clone());
    assert_eq!(thin.source_path, full.source_path);
    assert_eq!(thin.write_path, full.write_path);
    assert_eq!(thin.link, full.relative_build_path);
    assert_eq!(thin.link, "/a.html");
}

#[test]
fn getters_find_records_and_groups() {
    let mut inst = instance();
    inst.preprocess_file_data(
        &"/site/src/a.md".to_owned(),
        fm("A", Some(vec!["x"]), Some(vec!["c"])),
        "body".to_owned(),
    );
    let record = inst.get_frontmatter(&"/site/src/a.md".to_owned()).unwrap();
    assert_eq!(record.write_path, "/site/build/a.html");
    assert!(inst.get_frontmatter(&"/site/src/other.md".to_owned()).is_none());

    let listed = inst.get_tag_entries(&"x".to_owned()).unwrap();
    assert_eq!(listed.len(), 1);
    assert_eq!(listed[0].source_path, "/site/src/a.md");
    assert!(inst.get_tag_entries(&"y".to_owned()).is_none());

    let grouped = inst.get_collection_entries(&"c".to_owned()).unwrap();
    assert_eq!(grouped.len(), 1);
    assert!(inst.get_collection_entries(&"d".to_owned()).is_none());
}

#[test]
fn collections_group_documents_like_tags() {
    let mut inst = instance();
    inst.preprocess_file_data(
        &"/site/src/a.md".to_owned(),
        fm("A", None, Some(vec!["essays"])),
        "a".to_owned(),
    );
    inst.preprocess_file_data(
        &"/site/src/b.md".to_owned(),
        fm("B", None, Some(vec!["essays", "drafts"])),
        "b".to_owned(),
    );
    assert_eq!(inst.collection_map.len(), 2);
    assert_eq!(inst.collection_map[0].0, "essays");
    assert_eq!(inst.collection_map[0].1.len(), 2);
    assert_eq!(inst.collection_map[0].1[0].source_path, "/site/src/a.md");
    assert_eq!(inst.collection_map[0].1[1].source_path, "/site/src/b.md");
    assert_eq!(inst.collection_map[1].0, "drafts");
    assert_eq!(inst.collection_map[1].1.len(), 1);
}

#[test]
fn a_tag_repeated_in_one_document_is_indexed_once() {
    let mut inst = instance();
    inst.preprocess_file_data(
        &"/site/src/a.md".to_owned(),
        fm("A", Some(vec!["x", "x"]), None),
        "body".to_owned(),
    );
    assert_eq!(inst.tag_map.len(), 1);
    assert_eq!(inst.tag_map[0].0, "x");
    assert_eq!(inst.tag_map[0].1.len(), 1);
}
