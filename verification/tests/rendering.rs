use saaru::arguments::SaaruArguments;
use saaru::frontmatter::FrontMatter;
use saaru::render::RenderError;
use saaru::saaru::DocumentSource;
use saaru::saaru::SaaruInstance;

fn fm(title: &str, tags: Option<Vec<&str>>, template: Option<&str>) -> FrontMatter {
    FrontMatter {
        title: Some(title.to_owned()),
        description: Some("d".to_owned()),
        date: None,
        tags: tags.map(|ts| ts.into_iter().map(|t| t.to_owned()).collect()),
        collections: None,
        wip: None,
        template: template.map(|t| t.to_owned()),
        link: None,
        meta: None,
    }
}

fn instance() -> SaaruInstance {
    let args = SaaruArguments::new("/site".to_owned(), false, false);
    let mut inst = SaaruInstance::new(args, "post.jinja".to_owned(), minijinja::Value::UNDEFINED);
    inst.template_env
        .add_template("post.jinja", "P:{{ postcontent }}")
        .unwrap();
    inst.template_env
        .add_template("tags.jinja", "tag index")
        .unwrap();
    inst.template_env
        .add_template("tags_page.jinja", "tag {{ tag }}: {{ posts | length }}")
        .unwrap();
    inst
}

#[test]
fn markdown_conversion_produces_html() {
    let inst = instance();
    let html = inst.convert_markdown_to_html(&"# Hi".to_owned());
    assert!(html.contains("<h1>"));
    assert!(html.contains("Hi"));
    assert_ne!(html, "# Hi");
}

#[test]
fn markdown_conversion_skips_frontmatter() {
    let inst = instance();
    let html = inst.convert_markdown_to_html(&"---\ntitle: A\n---\n# Hi".to_owned());
    assert!(!html.contains("title"));
    assert!(html.contains("<h1>"));
}

#[test]
fn template_name_prefers_the_frontmatter_override() {
    let inst = instance();
    assert_eq!(inst.template_name_for(&fm("A", None, Some("special.jinja"))), "special.jinja");
    assert_eq!(inst.template_name_for(&fm("A", None, None)), "post.jinja");
}

#[test]
fn rendering_a_document_expands_its_template() {
    let mut inst = instance();
    inst.preprocess_file_data(&"/site/src/a.md".to_owned(), fm("A", None, None), "# Hi".to_owned());
    let record = inst.frontmatter_map[0].1.clone();
    let html = inst.render_file_from_frontmatter(&record).unwrap();
    assert!(html.starts_with("P:"));
    assert!(html.contains("<h1>"));
}

#[test]
fn a_missing_template_is_a_resolution_error() {
    let mut inst = instance();
    inst.preprocess_file_data(
        &"/site/src/a.md".to_owned(),
        fm("A", None, Some("absent.jinja")),
        "body".to_owned(),
    );
    let record = inst.frontmatter_map[0].1.clone();
    assert_eq!(inst.render_file_from_frontmatter(&record), Err(RenderError::TemplateNotFound));
}

#[test]
fn a_failing_template_is_a_render_error() {
    let mut inst = instance();
    inst.template_env
        .add_template("broken.jinja", "{{ no_such_function() }}")
        .unwrap();
    inst.preprocess_file_data(
        &"/site/src/a.md".to_owned(),
        fm("A", None, Some("broken.jinja")),
        "body".to_owned(),
    );
    let record = inst.frontmatter_map[0].1.clone();
    assert_eq!(inst.render_file_from_frontmatter(&record), Err(RenderError::RenderFailed));
}

#[test]
fn render_all_files_covers_every_record_once() {
    let mut inst = instance();
    inst.preprocess_file_data(&"/site/src/a.md".to_owned(), fm("A", None, None), "a".to_owned());
    inst.preprocess_file_data(&"/site/src/b.md".to_owned(), fm("B", None, None), "b".to_owned());
    let outs = inst.render_all_files().unwrap();
    assert_eq!(outs.len(), 2);
    assert_eq!(outs[0].0, "/site/build/a.html");
    assert_eq!(outs[1].0, "/site/build/b.html");
}

#[test]
fn render_queue_lists_documents_then_one_sentinel_per_worker() {
    let mut inst = instance();
    inst.preprocess_file_data(&"/site/src/a.md".to_owned(), fm("A", None, None), "a".to_owned());
    inst.preprocess_file_data(&"/site/src/b.md".to_owned(), fm("B", None, None), "b".to_owned());
    let q = inst.build_render_queue();
    assert_eq!(q.len(), 2 + inst.parallel_render_threads);
    match &q[0] {
        Some((key, record)) => {
            assert_eq!(key, "/site/src/a.md");
            assert_eq!(record.write_path, "/site/build/a.html");
        },
        None => panic!("expected work at the head of the queue"),
    }
    assert!(q[1].is_some());
    for sentinel in q.iter().skip(2) {
        assert!(sentinel.is_none());
    }
}

#[test]
fn tag_pages_cover_the_index_and_every_tag() {
    let mut inst = instance();
    inst.preprocess_file_data(
        &"/site/src/a.md".to_owned(),
        fm("A", Some(vec!["x"]), None),
        "a".to_owned(),
    );
    inst.preprocess_file_data(
        &"/site/src/b.md".to_owned(),
        fm("B", Some(vec!["x", "y"]), None),
        "b".to_owned(),
    );
    inst.build_base_context();
    let outs = inst.render_tags_pages().unwrap();
    assert_eq!(outs.len(), 3);
    assert_eq!(outs[0].0, "/site/build/tags/index.html");
    assert_eq!(outs[0].1, "tag index");
    assert_eq!(outs[1].0, "/site/build/tags/x.html");
    assert_eq!(outs[1].1, "tag x: 2");
    assert_eq!(outs[2].0, "/site/build/tags/y.html");
    assert_eq!(outs[2].1, "tag y: 1");
}

#[test]
fn full_pipeline_renders_documents_and_tag_pages() {
    let mut inst = instance();
    let documents = vec![
        DocumentSource {
            source_path: "/site/src/a.md".to_owned(),
            frontmatter: fm("A", Some(vec!["x"]), None),
            file_content: "# A".to_owned(),
        },
        DocumentSource {
            source_path: "/site/src/b.md".to_owned(),
            frontmatter: fm("B", Some(vec!["x", "y"]), None),
            file_content: "# B".to_owned(),
        },
    ];
    let outs = inst.render_pipeline(documents).unwrap();
    assert_eq!(outs.len(), 2 + 2 + 1);
    assert_eq!(outs[0].0, "/site/build/a.html");
    assert_eq!(outs[1].0, "/site/build/b.html");
    assert_eq!(outs[2].0, "/site/build/tags/index.html");
    assert_eq!(outs[3].0, "/site/build/tags/x.html");
    assert_eq!(outs[4].0, "/site/build/tags/y.html");
}

#[test]
fn pipeline_replaces_the_previous_index() {
    let mut inst = instance();
    inst.preprocess_file_data(
        &"/site/src/stale.md".to_owned(),
        fm("Old", Some(vec!["gone"]), None),
        "old".to_owned(),
    );
    let documents = vec![DocumentSource {
        source_path: "/site/src/a.md".to_owned(),
        frontmatter: fm("A", None, None),
        file_content: "a".to_owned(),
    }];
    inst.render_pipeline(documents).unwrap();
    assert_eq!(inst.frontmatter_map.len(), 1);
    assert_eq!(inst.frontmatter_map[0].0, "/site/src/a.md");
    assert!(inst.tag_map.is_empty());
}

#[test]
fn base_context_reaches_the_templates() {
    let mut inst = instance();
    inst.template_env
        .add_template("count.jinja", "tags:{{ base.tags | length }}")
        .unwrap();
    inst.preprocess_file_data(
        &"/site/src/a.md".to_owned(),
        fm("A", Some(vec!["x"]), Some("count.jinja")),
        "a".to_owned(),
    );
    inst.build_base_context();
    let record = inst.frontmatter_map[0].1.clone();
    let html = inst.render_file_from_frontmatter(&record).unwrap();
    assert_eq!(html, "tags:1");
}

#[test]
fn frontmatter_meta_text_is_exposed_as_structured_data() {
    let mut inst = instance();
    inst.template_env
        .add_template("meta.jinja", "k={{ frontmatter.meta.k }}")
        .unwrap();
    let mut meta_fm = fm("A", None, Some("meta.jinja"));
    meta_fm.meta = Some("{\"k\": \"v\"}".to_owned());
    inst.preprocess_file_data(&"/site/src/a.md".to_owned(), meta_fm, "a".to_owned());
    let record = inst.frontmatter_map[0].1.clone();
    let html = inst.render_file_from_frontmatter(&record).unwrap();
    assert_eq!(html, "k=v");
}

#[test]
fn markdown_conversion_passes_raw_html_through() {
    let inst = instance();
    let html = inst.convert_markdown_to_html(&"<div class=\"note\">kept</div>".to_owned());
    assert!(html.contains("<div class=\"note\">"));
    assert!(!html.contains("raw HTML omitted"));
}
