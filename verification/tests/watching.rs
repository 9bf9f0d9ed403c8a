use saaru::arguments::SaaruArguments;
use saaru::frontmatter::FrontMatter;
use saaru::saaru::SaaruInstance;
use saaru::watch::FsEvent;
use saaru::watch::FsEventKind;
use saaru::watch::OrchestratorAction;
use saaru::watch::SaaruEvent;
use saaru::watch::WatchDecision;
use saaru::watch::classify_event;

fn args() -> SaaruArguments {
    SaaruArguments::new("/site".to_owned(), true, false)
}

fn instance() -> SaaruInstance {
    let mut inst = SaaruInstance::new(args(), "post.jinja".to_owned(), minijinja::Value::UNDEFINED);
    inst.template_env
        .add_template("post.jinja", "{{ postcontent }}")
        .unwrap();
    inst
}

fn fm(title: &str) -> FrontMatter {
    FrontMatter {
        title: Some(title.to_owned()),
        description: None,
        date: None,
        tags: None,
        collections: None,
        wip: None,
        template: None,
        link: None,
        meta: None,
    }
}

fn changed(path: &str) -> SaaruEvent {
    SaaruEvent::FileChanged(Ok(FsEvent {
        paths: vec![path.to_owned()],
        kind: FsEventKind::ContentFinalized,
    }))
}

#[test]
fn classification_follows_the_priority_order() {
    let a = args();
    assert_eq!(classify_event(&a, "/site/src/post.md", true), WatchDecision::IncrementalRebuild);
    assert_eq!(classify_event(&a, "/site/static/logo.png", true), WatchDecision::StaticCopy);
    assert_eq!(classify_event(&a, "/site/templates/post.jinja", true), WatchDecision::FullRebuild);
    assert_eq!(classify_event(&a, "/site/src/notes.txt", true), WatchDecision::FullRebuild);
    assert_eq!(classify_event(&a, "/elsewhere/file.md", true), WatchDecision::Ignored);
    assert_eq!(classify_event(&a, "/site/src/post.md", false), WatchDecision::Ignored);
}

#[test]
fn a_markdown_file_under_templates_is_still_structural() {
    assert_eq!(
        classify_event(&args(), "/site/templates/readme.md", true),
        WatchDecision::FullRebuild,
    );
}

#[test]
fn a_dotfile_with_no_stem_is_not_content() {
    assert_eq!(classify_event(&args(), "/site/src/.md", true), WatchDecision::FullRebuild);
}

#[test]
fn orchestrator_maps_events_to_actions() {
    let inst = instance();
    assert_eq!(
        inst.orchestrator_step(&changed("/site/src/a.md")),
        OrchestratorAction::RerenderFile("/site/src/a.md".to_owned()),
    );
    assert_eq!(
        inst.orchestrator_step(&changed("/site/static/s.css")),
        OrchestratorAction::RecopyStatic,
    );
    assert_eq!(
        inst.orchestrator_step(&changed("/site/templates/t.jinja")),
        OrchestratorAction::RunFullRebuild,
    );
    assert_eq!(
        inst.orchestrator_step(&SaaruEvent::FileChanged(Err("watch failed".to_owned()))),
        OrchestratorAction::DoNothing,
    );
    assert_eq!(
        inst.orchestrator_step(&SaaruEvent::FileChanged(Ok(FsEvent {
            paths: vec![],
            kind: FsEventKind::ContentFinalized,
        }))),
        OrchestratorAction::DoNothing,
    );
    assert_eq!(
        inst.orchestrator_step(&SaaruEvent::FileChanged(Ok(FsEvent {
            paths: vec!["/site/src/a.md".to_owned()],
            kind: FsEventKind::Other,
        }))),
        OrchestratorAction::DoNothing,
    );
    assert_eq!(
        inst.orchestrator_step(&SaaruEvent::FileReRenderCompleted),
        OrchestratorAction::EmitReload,
    );
}

#[test]
fn body_change_rerenders_only_that_document() {
    let mut inst = instance();
    inst.preprocess_file_data(&"/site/src/a.md".to_owned(), fm("A"), "old a".to_owned());
    inst.preprocess_file_data(&"/site/src/b.md".to_owned(), fm("B"), "b body".to_owned());

    let action = inst.orchestrator_step(&changed("/site/src/a.md"));
    assert_eq!(action, OrchestratorAction::RerenderFile("/site/src/a.md".to_owned()));

    let (path, html) = inst
        .render_individual_file(&"/site/src/a.md".to_owned(), fm("A"), "new a".to_owned())
        .unwrap();
    assert_eq!(path, "/site/build/a.html");
    assert!(html.contains("new a"));

    assert_eq!(inst.frontmatter_map.len(), 2);
    assert_eq!(inst.frontmatter_map[0].1.file_content, "new a");
    assert_eq!(inst.frontmatter_map[1].1.file_content, "b body");

    assert_eq!(
        inst.orchestrator_step(&SaaruEvent::FileReRenderCompleted),
        OrchestratorAction::EmitReload,
    );
}

#[test]
fn is_content_file_checks_root_and_extension() {
    let inst = instance();
    assert!(inst.is_content_file("/site/src/a.md"));
    assert!(!inst.is_content_file("/site/src/a.txt"));
    assert!(!inst.is_content_file("/site/templates/a.md"));
    assert!(!inst.is_content_file("/site/src/.md"));
}
