use undox::config::MarkdownConfig;
use undox::document::{Document, ExtraField, FrontMatter};
use undox::format::FormatRegistry;
use undox::highlight::SyntaxHighlighter;
use undox::nav::SourceNav;
use undox::pipeline::{
    MarkdownStage, Pipeline, PipelineContext, PipelineError, PipelineStep, ProcessingDocument,
    RenderError, TemplateStage, TeraStage, WritePlan, WriteStage,
};
use undox::render::{NavLink, NavSection, SiteContext, SourceTab};

struct World {
    site: SiteContext,
    theme: serde_json::Value,
    markdown: MarkdownConfig,
    navs: Vec<SourceNav>,
    tabs: Vec<SourceTab>,
    highlighter: SyntaxHighlighter,
    registry: FormatRegistry,
}

fn world(registry: FormatRegistry) -> World {
    World {
        site: SiteContext { name: "Site".to_string(), url: None, favicon: None },
        theme: serde_json::Value::String("dark".to_string()),
        markdown: MarkdownConfig::default(),
        navs: vec![SourceNav {
            source_name: "cli".to_string(),
            nav: vec![NavSection::Link(NavLink {
                title: "Home".to_string(),
                url: "/cli".to_string(),
                children: vec![],
            })],
        }],
        tabs: vec![
            SourceTab {
                name: "CLI".to_string(),
                source_id: "cli".to_string(),
                url: "/cli/".to_string(),
                is_current: false,
                is_top_level: false,
            },
            SourceTab {
                name: "API".to_string(),
                source_id: "api".to_string(),
                url: "/api/".to_string(),
                is_current: false,
                is_top_level: false,
            },
        ],
        highlighter: SyntaxHighlighter::default(),
        registry,
    }
}

fn context(w: &World) -> PipelineContext<'_> {
    PipelineContext::new(
        "/out",
        &w.site,
        &w.theme,
        &w.markdown,
        &w.navs,
        &w.tabs,
        &w.highlighter,
        &w.registry,
        true,
        true,
        "1.2.3".to_string(),
    )
}

fn document(path: &str, url: &str, body: &str) -> ProcessingDocument {
    let mut front_matter = FrontMatter::default();
    front_matter.description = Some("about".to_string());
    front_matter.extra.push(ExtraField {
        key: "author".to_string(),
        value: serde_yaml::Value::String("me".to_string()),
    });
    ProcessingDocument::new(
        Document::new(
            "cli".to_string(),
            path.to_string(),
            url.to_string(),
            front_matter,
            body.to_string(),
        ),
        "/src/cli".to_string(),
    )
}

/// Runs a pipeline as a build does, with a template engine that marks
/// what it was given. Hands back the names of the stages that ran and the
/// files that were to be written.
fn run(
    pipeline: &Pipeline,
    docs: &mut Vec<ProcessingDocument>,
    ctx: &PipelineContext,
) -> (Vec<String>, Vec<WritePlan>, Result<(), PipelineError>) {
    let mut ran = Vec::new();
    let mut written = Vec::new();
    let (mut state, mut step) = pipeline.run();
    loop {
        let outcome = match step {
            PipelineStep::Finished(outcome) => return (ran, written, outcome),
            PipelineStep::Finalize(name) => {
                ran.push(format!("finalize:{}", name));
                Ok(())
            }
            PipelineStep::RunStage(name) => {
                ran.push(name.clone());
                run_stage(&name, docs, ctx, &mut written)
            }
        };
        let (s, next) = pipeline.next(state, outcome);
        state = s;
        step = next;
    }
}

fn run_stage(
    name: &str,
    docs: &mut Vec<ProcessingDocument>,
    ctx: &PipelineContext,
    written: &mut Vec<WritePlan>,
) -> Result<(), PipelineError> {
    match name {
        "tera" => {
            let mut outcomes = Vec::new();
            for doc in docs.iter() {
                let context = TeraStage::context_for(doc, ctx);
                outcomes.push(Ok(doc.content.replace("{{ page.title }}", &context.page.title)));
            }
            TeraStage::take_in(docs, outcomes)
        }
        "markdown" => MarkdownStage::process(docs, ctx),
        "template" => {
            let mut outcomes = Vec::new();
            for doc in docs.iter() {
                let context = TemplateStage::context_for(doc, ctx);
                outcomes.push(Ok(format!(
                    "<html><title>{}</title>{}</html>",
                    context.page.title, context.content
                )));
            }
            TemplateStage::take_in(docs, outcomes)
        }
        "write" => {
            written.extend(WriteStage::process(docs, ctx)?);
            Ok(())
        }
        _ => Ok(()),
    }
}

#[test]
fn default_pipeline_runs_every_stage_in_order() {
    let w = world(FormatRegistry::with_defaults());
    let ctx = context(&w);
    let mut docs = vec![
        document("intro.md", "/cli/intro", "# {{ page.title }}\n\nHello"),
        document("index.md", "/cli", "Root"),
    ];
    let (ran, written, outcome) = run(&Pipeline::default_pipeline(), &mut docs, &ctx);
    assert!(outcome.is_ok());
    assert_eq!(ran, vec!["tera", "markdown", "template", "write"]);
    assert_eq!(written.len(), 2);
    assert_eq!(written[0].path, "/out/cli/intro/index.html");
    assert_eq!(written[0].dir, "/out/cli/intro");
    assert_eq!(written[1].path, "/out/cli/index.html");
    assert_eq!(Some(&written[0].html), docs[0].output_html.as_ref());
    let page = docs[0].output_html.as_ref().unwrap();
    assert!(page.starts_with("<html><title>Intro</title>"));
    assert!(page.contains("<h1 id=\"intro\">Intro "));
    assert!(page.contains("<p>Hello</p>"));
    assert_eq!(docs[0].toc.len(), 1);
}

#[test]
fn without_the_write_stage_nothing_is_written() {
    let w = world(FormatRegistry::with_defaults());
    let ctx = context(&w);
    let mut pipeline = Pipeline::new();
    pipeline.add_stage("tera");
    pipeline.add_stage("markdown");
    pipeline.add_stage("template");
    let mut docs = vec![document("intro.md", "/cli/intro", "Hello")];
    let (ran, written, outcome) = run(&pipeline, &mut docs, &ctx);
    assert!(outcome.is_ok());
    assert_eq!(ran, vec!["tera", "markdown", "template"]);
    assert!(written.is_empty());
    assert!(docs[0].output_html.is_some());
}

#[test]
fn without_the_markdown_format_the_render_stage_fails() {
    let w = world(FormatRegistry::new());
    let ctx = context(&w);
    let mut docs = vec![
        document("index.md", "/cli", "Root"),
        document("intro.md", "/cli/intro", "Hello"),
    ];
    let (ran, written, outcome) = run(&Pipeline::default_pipeline(), &mut docs, &ctx);
    // no stage runs after the one that failed
    assert_eq!(ran, vec!["tera", "markdown"]);
    assert!(written.is_empty());
    match outcome {
        Err(PipelineError::Stage { stage, message }) => {
            assert_eq!(stage, "markdown");
            assert_eq!(message, "no format registered for /cli (extension: md)");
        }
        _ => panic!("expected the markdown stage to fail"),
    }
    assert!(docs.iter().all(|d| d.output_html.is_none()));
}

#[test]
fn a_failed_stage_changes_no_document() {
    let w = World {
        markdown: MarkdownConfig { extensions: vec!["bogus".to_string()] },
        ..world(FormatRegistry::with_defaults())
    };
    let ctx = context(&w);
    let mut docs = vec![
        document("a.md", "/cli/a", "# A"),
        document("b.md", "/cli/b", "# B"),
    ];
    match MarkdownStage::process(&mut docs, &ctx) {
        Err(e) => assert_eq!(
            e.message(),
            "stage 'markdown' failed: failed to render /cli/a: markdown error: invalid markdown extension: bogus"
        ),
        Ok(()) => panic!("expected the stage to fail"),
    }
    assert_eq!(docs[0].content, "# A");
    assert_eq!(docs[1].content, "# B");

    // the second document has no format: the first stays as it was
    let w = world(FormatRegistry::with_defaults());
    let ctx = context(&w);
    let mut docs = vec![
        document("a.md", "/cli/a", "# A"),
        document("b", "/cli/b", "# B"),
    ];
    match MarkdownStage::process(&mut docs, &ctx) {
        Err(PipelineError::Stage { message, .. }) => {
            assert_eq!(message, "no format registered for /cli/b (extension: (none))")
        }
        _ => panic!("expected the stage to fail"),
    }
    assert_eq!(docs[0].content, "# A");
    assert!(docs[0].toc.is_empty());
}

#[test]
fn markdown_stage_keeps_the_order_of_the_documents() {
    let w = world(FormatRegistry::with_defaults());
    let ctx = context(&w);
    let mut docs = vec![
        document("a.md", "/cli/a", "# A"),
        document("b.md", "/cli/b", "plain"),
        document("c.md", "/cli/c", "## C"),
    ];
    assert!(MarkdownStage::process(&mut docs, &ctx).is_ok());
    let urls: Vec<&str> = docs.iter().map(|d| d.url_path()).collect();
    assert_eq!(urls, vec!["/cli/a", "/cli/b", "/cli/c"]);
    assert!(docs[0].content.contains("<h1 id=\"a\""));
    assert_eq!(docs[1].content, "<p>plain</p>\n");
    assert_eq!(docs[2].toc[0].level, 2);
}

#[test]
fn template_failures_name_the_document() {
    let mut doc = document("intro.md", "/cli/intro", "Hello");
    match TeraStage::apply(&mut doc, Err(RenderError::Template("unexpected }".to_string()))) {
        Err(e) => assert_eq!(
            e.message(),
            "stage 'tera' failed: failed to render /cli/intro: template error: unexpected }"
        ),
        Ok(()) => panic!("expected a failure"),
    }
    assert_eq!(doc.content, "Hello");
    match TemplateStage::apply(&mut doc, Err(RenderError::ThemeNotFound("/t".to_string()))) {
        Err(e) => assert_eq!(
            e.message(),
            "stage 'template' failed: failed to render /cli/intro: theme not found: /t"
        ),
        Ok(()) => panic!("expected a failure"),
    }
    assert!(doc.output_html.is_none());
}

#[test]
fn contexts_of_the_template_stages() {
    let w = world(FormatRegistry::with_defaults());
    let ctx = context(&w);
    let mut doc = document("guides/first-steps.md", "/cli/guides/first-steps", "body");
    let content = TeraStage::context_for(&doc, &ctx);
    assert_eq!(content.page.title, "First Steps");
    assert_eq!(content.page.url, "/cli/guides/first-steps");
    assert_eq!(content.page.description, Some("about".to_string()));
    assert_eq!(content.page.extra.len(), 1);
    assert_eq!(content.page.extra[0].key, "author");
    assert_eq!(content.page.extra[0].value, serde_yaml::Value::String("me".to_string()));
    assert_eq!(content.site.name, "Site");
    assert_eq!(content.theme, serde_json::Value::String("dark".to_string()));
    assert!(content.undox.dev && content.undox.live_reload);
    assert_eq!(content.undox.version, "1.2.3");

    doc.content = "<p>body</p>".to_string();
    let page = TemplateStage::context_for(&doc, &ctx);
    assert_eq!(page.content, "<p>body</p>");
    assert_eq!(page.nav.len(), 1);
    let current: Vec<bool> = page.sources.iter().map(|t| t.is_current).collect();
    assert_eq!(current, vec![true, false]);
    assert_eq!(page.sources[1].name, "API");
}

#[test]
fn live_reload_needs_development_mode() {
    let w = world(FormatRegistry::with_defaults());
    let ctx = |dev: bool, live: bool| {
        PipelineContext::new(
            "/out", &w.site, &w.theme, &w.markdown, &w.navs, &w.tabs, &w.highlighter,
            &w.registry, dev, live, "v".to_string(),
        )
    };
    assert!(ctx(true, true).undox.live_reload);
    assert!(!ctx(false, true).undox.live_reload);
    assert!(!ctx(true, false).undox.live_reload);
    assert!(!ctx(false, true).undox.dev);
    assert!(ctx(true, true).nav_for_source("nope").is_empty());
    assert_eq!(ctx(true, true).nav_for_source("cli").len(), 1);
}

#[test]
fn write_stage_needs_a_page() {
    let w = world(FormatRegistry::with_defaults());
    let ctx = context(&w);
    let mut with_page = document("style.md", "/cli/v1.2/notes", "x");
    with_page.output_html = Some("<html/>".to_string());
    let without = document("intro.md", "/cli/intro", "x");
    match WriteStage::plan(&with_page, &ctx) {
        Ok(plan) => {
            // a URL with a dot is used as it stands
            assert_eq!(plan.path, "/out/cli/v1.2/notes");
            assert_eq!(plan.dir, "/out/cli/v1.2");
            assert_eq!(plan.html, "<html/>");
        }
        Err(_) => panic!("expected a plan"),
    }
    match WriteStage::plan(&without, &ctx) {
        Err(e) => assert_eq!(
            e.message(),
            "stage 'write' failed: document '/cli/intro' has no output HTML (was template stage run?)"
        ),
        Ok(_) => panic!("expected a failure"),
    }
    assert!(WriteStage::process(&vec![with_page, without], &ctx).is_err());
}

#[test]
fn stages_can_be_inserted_by_name() {
    let mut pipeline = Pipeline::default_pipeline();
    pipeline.insert_before("markdown", "lint");
    pipeline.insert_after("template", "minify");
    pipeline.insert_after("write", "report");
    pipeline.insert_before("tera", "first");
    assert_eq!(
        pipeline.stage_names(),
        vec!["first", "tera", "lint", "markdown", "template", "minify", "write", "report"]
    );
    assert!(pipeline.has_stage("lint"));
    assert!(!pipeline.has_stage("nope"));
    assert!(!pipeline.try_insert_before("nope", "x"));
    assert!(!pipeline.try_insert_after("nope", "x"));
    assert_eq!(pipeline.stage_names().len(), 8);
    assert!(pipeline.try_insert_after("first", "second"));
    assert!(pipeline.try_insert_before("report", "almost"));
    assert_eq!(
        pipeline.stage_names(),
        vec![
            "first", "second", "tera", "lint", "markdown", "template", "minify", "write",
            "almost", "report"
        ]
    );
}

#[test]
fn finalize_stages_run_after_the_documents() {
    let w = world(FormatRegistry::with_defaults());
    let ctx = context(&w);
    let mut pipeline = Pipeline::new();
    pipeline.add_finalize_stage("sitemap");
    pipeline.add_stage("custom");
    pipeline.add_finalize_stage("search");
    let mut docs = vec![];
    let (ran, _, outcome) = run(&pipeline, &mut docs, &ctx);
    assert!(outcome.is_ok());
    assert_eq!(ran, vec!["custom", "finalize:sitemap", "finalize:search"]);
}

#[test]
fn a_failure_ends_the_run() {
    let pipeline = Pipeline::default_pipeline();
    let (state, step) = pipeline.run();
    assert!(matches!(step, PipelineStep::RunStage(name) if name == "tera"));
    let (state, step) = pipeline.next(state, Ok(()));
    assert!(matches!(step, PipelineStep::RunStage(name) if name == "markdown"));
    let (state, step) = pipeline.next(state, Err(PipelineError::Io("disk full".to_string())));
    match step {
        PipelineStep::Finished(Err(e)) => assert_eq!(e.message(), "IO error: disk full"),
        _ => panic!("expected the run to end"),
    }
    assert!(state.ended);
    // a run that has ended stays ended
    let (_, step) = pipeline.next(state, Ok(()));
    assert!(matches!(step, PipelineStep::Finished(Ok(()))));
}

#[test]
fn an_empty_pipeline_ends_at_once() {
    let (state, step) = Pipeline::new().run();
    assert!(matches!(step, PipelineStep::Finished(Ok(()))));
    assert!(state.ended);
}

#[test]
fn processing_document_starts_with_the_raw_content() {
    let doc = document("intro.md", "/cli/intro", "raw body");
    assert_eq!(doc.content, "raw body");
    assert!(doc.toc.is_empty());
    assert!(doc.output_html.is_none());
    assert_eq!(doc.url_path(), "/cli/intro");
    assert_eq!(doc.source_name(), "cli");
    assert_eq!(doc.title(), "Intro");
    assert_eq!(doc.source_path, "/src/cli");
}

#[test]
fn pipeline_error_messages() {
    let e = PipelineError::stage("custom", "went wrong");
    assert_eq!(e.message(), "stage 'custom' failed: went wrong");
    assert_eq!(
        PipelineError::Tera(RenderError::Template("bad".to_string())).message(),
        "tera rendering error: template error: bad"
    );
    assert_eq!(
        PipelineError::Markdown(undox::markdown::MarkdownError::InvalidExtension("x".to_string()))
            .message(),
        "markdown rendering error: invalid markdown extension: x"
    );
}

#[test]
fn results_are_taken_in_in_order() {
    let output = |html: &str| undox::format::FormatOutput {
        html: html.to_string(),
        toc: vec![undox::render::TocEntry {
            text: html.to_string(),
            id: html.to_string(),
            level: 1,
        }],
    };
    let contents = |docs: &Vec<ProcessingDocument>| -> Vec<String> {
        docs.iter().map(|d| d.content.clone()).collect()
    };
    let three = || {
        vec![
            document("a.md", "/cli/a", "A"),
            document("b.md", "/cli/b", "B"),
            document("c.md", "/cli/c", "C"),
        ]
    };
    let mut docs = three();
    MarkdownStage::take_in(&mut docs, vec![output("1"), output("2"), output("3")]);
    assert_eq!(contents(&docs), vec!["1", "2", "3"]);
    assert_eq!(docs[1].toc[0].id, "2");
    assert_eq!(docs[2].url_path(), "/cli/c");
    // a document without a result stays as it is
    let mut docs = three();
    MarkdownStage::take_in(&mut docs, vec![output("1")]);
    assert_eq!(contents(&docs), vec!["1", "B", "C"]);
    assert!(docs[1].toc.is_empty());
    // a result without a document is dropped
    let mut docs = three();
    MarkdownStage::take_in(
        &mut docs,
        vec![output("1"), output("2"), output("3"), output("4"), output("5")],
    );
    assert_eq!(contents(&docs), vec!["1", "2", "3"]);
    let mut none: Vec<ProcessingDocument> = vec![];
    MarkdownStage::take_in(&mut none, vec![output("1")]);
    assert!(none.is_empty());
}

#[test]
fn a_failed_template_stage_changes_no_document() {
    let mut docs = vec![
        document("a.md", "/cli/a", "A"),
        document("b.md", "/cli/b", "B"),
        document("c.md", "/cli/c", "C"),
    ];
    let outcomes = vec![
        Ok("expanded a".to_string()),
        Err(RenderError::Template("unexpected }".to_string())),
        Err(RenderError::Template("never reached".to_string())),
    ];
    match TeraStage::take_in(&mut docs, outcomes) {
        Err(e) => assert_eq!(
            e.message(),
            "stage 'tera' failed: failed to render /cli/b: template error: unexpected }"
        ),
        Ok(()) => panic!("expected a failure"),
    }
    let contents: Vec<&str> = docs.iter().map(|d| d.content.as_str()).collect();
    assert_eq!(contents, vec!["A", "B", "C"]);

    let outcomes = vec![
        Ok("<html>a</html>".to_string()),
        Ok("<html>b</html>".to_string()),
        Err(RenderError::ThemeNotFound("/t".to_string())),
    ];
    match TemplateStage::take_in(&mut docs, outcomes) {
        Err(e) => assert_eq!(
            e.message(),
            "stage 'template' failed: failed to render /cli/c: theme not found: /t"
        ),
        Ok(()) => panic!("expected a failure"),
    }
    assert!(docs.iter().all(|d| d.output_html.is_none()));
}

#[test]
fn template_stages_take_every_outcome_in() {
    let mut docs = vec![
        document("a.md", "/cli/a", "A"),
        document("b.md", "/cli/b", "B"),
        document("c.md", "/cli/c", "C"),
    ];
    let outcomes = vec![Ok("one".to_string()), Ok("two".to_string()), Ok("three".to_string())];
    assert!(TeraStage::take_in(&mut docs, outcomes).is_ok());
    let contents: Vec<&str> = docs.iter().map(|d| d.content.as_str()).collect();
    assert_eq!(contents, vec!["one", "two", "three"]);
    let urls: Vec<&str> = docs.iter().map(|d| d.url_path()).collect();
    assert_eq!(urls, vec!["/cli/a", "/cli/b", "/cli/c"]);
    assert!(docs.iter().all(|d| d.output_html.is_none()));

    // a document without an outcome stays, an outcome without a document
    // is dropped
    let outcomes = vec![Ok("<p>1</p>".to_string()), Ok("<p>2</p>".to_string())];
    assert!(TemplateStage::take_in(&mut docs, outcomes).is_ok());
    assert_eq!(docs[0].output_html.as_deref(), Some("<p>1</p>"));
    assert_eq!(docs[1].output_html.as_deref(), Some("<p>2</p>"));
    assert!(docs[2].output_html.is_none());
    assert_eq!(docs[2].content, "three");
    let mut one = vec![document("a.md", "/cli/a", "A")];
    let outcomes = vec![
        Ok("x".to_string()),
        Err(RenderError::Template("no document".to_string())),
    ];
    assert!(TeraStage::take_in(&mut one, outcomes).is_ok());
    assert_eq!(one[0].content, "x");
    assert!(TeraStage::take_in(&mut Vec::new(), Vec::new()).is_ok());
}

#[test]
fn write_stage_plans_every_page_with_its_directory() {
    let w = world(FormatRegistry::with_defaults());
    let ctx = context(&w);
    let mut a = document("index.md", "/cli", "x");
    a.output_html = Some("<html>a</html>".to_string());
    let mut b = document("guide/intro.md", "/cli/guide/intro", "x");
    b.output_html = Some("<html>b</html>".to_string());
    match WriteStage::process(&vec![a, b], &ctx) {
        Ok(plans) => {
            assert_eq!(plans.len(), 2);
            assert_eq!(plans[0].path, "/out/cli/index.html");
            assert_eq!(plans[0].dir, "/out/cli");
            assert_eq!(plans[0].html, "<html>a</html>");
            assert_eq!(plans[1].path, "/out/cli/guide/intro/index.html");
            assert_eq!(plans[1].dir, "/out/cli/guide/intro");
            assert_eq!(plans[1].html, "<html>b</html>");
        }
        Err(_) => panic!("expected plans"),
    }
}

#[test]
fn markdown_stage_hands_the_content_to_the_format() {
    let w = world(FormatRegistry::with_defaults());
    let ctx = context(&w);
    let mut docs = vec![document("a.md", "/cli/a", "raw")];
    docs[0].content = "## Expanded *text*".to_string();
    assert!(MarkdownStage::process(&mut docs, &ctx).is_ok());
    assert!(docs[0].content.contains("Expanded"));
    assert!(!docs[0].content.contains("raw"));
    assert_eq!(docs[0].toc.len(), 1);
    assert_eq!(docs[0].toc[0].text, "Expanded text");
    assert_eq!(docs[0].toc[0].id, "expanded-text");
    assert_eq!(docs[0].doc.raw_content, "raw");
}
