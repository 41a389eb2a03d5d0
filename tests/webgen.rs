use handlebars::Handlebars;
use pulldown_cmark::LinkType;
use webgen::book::{book_plan, decimal_string, BookPart, PartKind};
use webgen::document::template_vars;
use webgen::path::is_hidden_name;
use webgen::markdown::{
    audio_mime_for_ext, is_audio_file, markdown_to_html, md_link_to_html, rewrite_links, MdEvent,
};
use webgen::{DocError, Document, DocumentInfo, FrontMatter, SiteAction, Web};

fn ok<T, E>(r: Result<T, E>) -> T {
    match r {
        Ok(v) => v,
        Err(_) => panic!("unexpected error"),
    }
}

fn registry(template: &str) -> Handlebars<'static> {
    let mut reg = Handlebars::new();
    reg.register_template_string("default", template).expect("template");
    reg.register_escape_fn(handlebars::no_escape);
    reg
}

fn doc(path: &str, text: &str) -> Document {
    ok(Document::new(path.to_string(), text.to_string()))
}

fn vars(fm: &FrontMatter) -> Vec<(String, String)> {
    fm.vars.clone()
}

#[test]
fn split_takes_block_and_delimiters() {
    let mut text = String::from("---\ntitle: My Website\n---\n# Heading\nbody\n");
    let fm = ok(FrontMatter::split_yml_from_string(&mut text)).expect("front matter");
    assert_eq!(text, "# Heading\nbody\n");
    assert_eq!(vars(&fm), vec![("title".to_string(), "My Website".to_string())]);
}

#[test]
fn split_accepts_crlf_delimiters() {
    let mut text = String::from("---\r\ntitle: x\r\n---\r\nrest");
    let fm = ok(FrontMatter::split_yml_from_string(&mut text)).expect("front matter");
    assert_eq!(text, "rest");
    assert_eq!(vars(&fm), vec![("title".to_string(), "x".to_string())]);
}

#[test]
fn split_rejoins_to_input() {
    let input = "---\na: b\nc: d\n---\nline one\n\nline two";
    let mut text = input.to_string();
    assert!(ok(FrontMatter::split_yml_from_string(&mut text)).is_some());
    let block = "a: b\nc: d\n";
    assert_eq!(format!("---\n{}---\n{}", block, text), input);
}

#[test]
fn split_without_delimiter_is_noop() {
    for t in ["# Title\n---\nx: y\n---\n", "", "--\n", " ---\nx: y\n---\n", "----\n"] {
        let mut text = t.to_string();
        assert!(ok(FrontMatter::split_yml_from_string(&mut text)).is_none());
        assert_eq!(text, t);
    }
}

#[test]
fn split_without_closing_delimiter_leaves_text() {
    let mut text = String::from("---\ntitle: x\nno end here\n");
    assert!(ok(FrontMatter::split_yml_from_string(&mut text)).is_none());
    assert_eq!(text, "---\ntitle: x\nno end here\n");
}

#[test]
fn split_rejects_nested_values() {
    let mut text = String::from("---\ntags:\n  - a\n  - b\n---\nbody");
    assert!(FrontMatter::split_yml_from_string(&mut text).is_err());
    assert_eq!(text, "---\ntags:\n  - a\n  - b\n---\nbody");
}

#[test]
fn markdown_document_gets_front_matter() {
    let d = doc("src/page.md", "---\ntitle: T\n---\nHello");
    assert!(d.is_markdown());
    match d.info {
        DocumentInfo::Markdown { front_matter, text } => {
            assert_eq!(text, "Hello");
            assert_eq!(vars(&front_matter.expect("fm")), vec![("title".to_string(), "T".to_string())]);
        }
        DocumentInfo::Other => panic!("expected markdown"),
    }
}

#[test]
fn other_document_is_opaque() {
    let d = doc("src/image.png", "---\nnot: read\n");
    assert!(!d.is_markdown());
    assert!(matches!(d.info, DocumentInfo::Other));
    assert_eq!(d.source_path, "src/image.png");
}

#[test]
fn bad_metadata_names_the_path() {
    let r = Document::new("src/bad.md".to_string(), "---\n: : [\n---\nx".to_string());
    match r {
        Err(DocError::MetadataParse { path }) => assert_eq!(path, "src/bad.md"),
        _ => panic!("expected a metadata error"),
    }
}

#[test]
fn markdown_paths_by_extension() {
    assert!(Document::is_markdown_path("a/b.md"));
    assert!(Document::is_markdown_path("notes.markdown"));
    assert!(!Document::is_markdown_path("a/b.MD"));
    assert!(!Document::is_markdown_path("a/md"));
    assert!(!Document::is_markdown_path("a/.md"));
    assert!(!Document::is_markdown_path("a/b.md.txt"));
    assert!(Document::is_markdown_path("x.md/."));
    assert!(Document::is_markdown_path("x.markdown/.//"));
}

#[test]
fn file_stems() {
    assert_eq!(ok(doc("dir/chapter-a.md", "").file_stem()), "chapter-a");
    assert_eq!(ok(doc("dir/archive.tar.gz", "").file_stem()), "archive.tar");
    assert_eq!(ok(doc("dir/.hidden", "").file_stem()), ".hidden");
    assert_eq!(ok(doc("cover", "").file_stem()), "cover");
    assert_eq!(ok(doc("dir/sub/", "").file_stem()), "sub");
    assert_eq!(ok(doc("a/.", "").file_stem()), "a");
    assert_eq!(ok(doc("foo.txt/.//", "").file_stem()), "foo");
    assert_eq!(ok(doc("a/./.", "").file_stem()), "a");
    assert!(doc(".", "").file_stem().is_err());
    assert!(doc("/.", "").file_stem().is_err());
    match doc("dir/..", "").file_stem() {
        Err(DocError::Path { path }) => assert_eq!(path, "dir/.."),
        _ => panic!("expected a path error"),
    }
}

#[test]
fn outpaths_mirror_the_tree() {
    let d = doc("markdown/a/b.png", "");
    assert_eq!(ok(d.outpath("markdown", "_website")), "_website/a/b.png");
    assert_eq!(ok(d.outpath("markdown/", "_website/")), "_website/a/b.png");
    match d.outpath("mark", "_website") {
        Err(DocError::Path { path }) => assert_eq!(path, "markdown/a/b.png"),
        _ => panic!("expected a path error"),
    }
}

#[test]
fn md_links_point_at_html() {
    assert_eq!(md_link_to_html("a/b.md"), "a/b.html");
    let html = markdown_to_html("see [next](a/b.md)");
    assert!(html.contains("href=\"a/b.html\""));
    assert!(!html.contains("b.md"));
}

#[test]
fn md_link_with_fragment_is_kept() {
    let html = markdown_to_html("see [next](a/b.md#frag)");
    assert!(html.contains("href=\"a/b.md#frag\""));
}

#[test]
fn audio_link_becomes_player() {
    let html = markdown_to_html("[Listen](song.mp3)");
    assert!(html.contains("<audio controls><source src=\"song.mp3\" type=\"audio/mpeg\">"));
    assert!(html.contains("<span class=\"fa-solid fa-play\">Listen</span></a></audio>"));
    assert!(!html.contains("</a></a>"));
}

#[test]
fn audio_link_without_text_uses_placeholder() {
    let html = markdown_to_html("[](song.mp3)");
    assert!(html.contains("type=\"audio/mpeg\""));
    assert!(html.contains("<span class=\"fa-solid fa-play\">#</span>"));
}

#[test]
fn audio_link_at_end_of_events() {
    let events = vec![MdEvent::LinkStart {
        link_type: LinkType::Inline,
        url: "x/tune.ogg".to_string(),
        title: "t".to_string(),
    }];
    let out = rewrite_links(events);
    assert_eq!(out.len(), 1);
    match &out[0] {
        MdEvent::Html(h) => assert_eq!(
            h,
            "<audio controls><source src=\"x/tune.ogg\" type=\"audio/ogg\">Your browser does not support the audio element. <a href=\"x/tune.ogg\" title=\"t\" class=\"audio\"><span class=\"fa-solid fa-play\"></span></a></audio>"
        ),
        _ => panic!("expected html"),
    }
}

#[test]
fn audio_link_consumes_text_and_close() {
    let events = vec![
        MdEvent::Text("before".to_string()),
        MdEvent::LinkStart { link_type: LinkType::Inline, url: "a.wav".to_string(), title: String::new() },
        MdEvent::Text("Play".to_string()),
        MdEvent::Text("closing".to_string()),
        MdEvent::Text("after".to_string()),
    ];
    let out = rewrite_links(events);
    assert_eq!(out.len(), 3);
    assert!(matches!(&out[0], MdEvent::Text(t) if t == "before"));
    assert!(matches!(&out[1], MdEvent::Html(h) if h.contains(">Play</span>") && h.contains("audio/wav")));
    assert!(matches!(&out[2], MdEvent::Text(t) if t == "after"));
}

#[test]
fn audio_types() {
    assert_eq!(audio_mime_for_ext("mp3"), Some("audio/mpeg"));
    assert_eq!(audio_mime_for_ext("flac"), Some("audio/flac"));
    assert_eq!(audio_mime_for_ext("MP3"), None);
    assert!(is_audio_file("music/a.opus"));
    assert!(!is_audio_file("music/a.mp4"));
    assert!(!is_audio_file("mp3"));
}

#[test]
fn body_in_front_matter_is_replaced() {
    let d = doc("in/p.md", "---\ntitle: T\nbody: ignored\n---\nHello *you*");
    let reg = registry("{{title}}|{{body}}");
    match ok(d.webgen("in", "out", &reg)) {
        SiteAction::Write { to, contents, vars, body_overridden } => {
            assert_eq!(to, "out/p.html");
            assert_eq!(contents, "T|<p>Hello <em>you</em></p>\n");
            assert_eq!(vars, vec![
                ("title".to_string(), "T".to_string()),
                ("body".to_string(), "<p>Hello <em>you</em></p>\n".to_string()),
            ]);
            assert!(body_overridden);
        }
        SiteAction::Copy { .. } => panic!("expected a page"),
    }
}

#[test]
fn template_vars_without_body() {
    let mut text = String::from("---\nb: \"2\"\na: \"1\"\n---\n");
    let fm = ok(FrontMatter::split_yml_from_string(&mut text));
    let (v, overridden) = template_vars(&fm, "<p>x</p>".to_string());
    assert!(!overridden);
    assert_eq!(v.last().expect("body"), &("body".to_string(), "<p>x</p>".to_string()));
    assert_eq!(v.len(), 3);
    let (v, overridden) = template_vars(&None, "h".to_string());
    assert!(!overridden);
    assert_eq!(v, vec![("body".to_string(), "h".to_string())]);
}

#[test]
fn webgen_copies_other_files() {
    let d = doc("in/img/a.png", "");
    let reg = registry("{{body}}");
    match ok(d.webgen("in", "out", &reg)) {
        SiteAction::Copy { from, to } => {
            assert_eq!(from, "in/img/a.png");
            assert_eq!(to, "out/img/a.png");
        }
        SiteAction::Write { .. } => panic!("expected a copy"),
    }
}

#[test]
fn webgen_reports_missing_template() {
    let d = doc("in/p.md", "text");
    let reg: Handlebars = Handlebars::new();
    match d.webgen("in", "out", &reg) {
        Err(DocError::TemplateRender { path, .. }) => assert_eq!(path, "in/p.md"),
        _ => panic!("expected a render error"),
    }
}

#[test]
fn website_generation_is_repeatable() {
    let docs = || vec![doc("in/a.md", "---\ntitle: A\n---\n[b](b.md)"), doc("in/x.css", "")];
    let first = ok(Web::new("in".into(), "out".into(), "t".into(), docs(), registry("{{title}}{{body}}")).website_plan());
    let second = ok(Web::new("in".into(), "out".into(), "t".into(), docs(), registry("{{title}}{{body}}")).website_plan());
    assert_eq!(first.len(), 2);
    for (a, b) in first.iter().zip(second.iter()) {
        match (a, b) {
            (SiteAction::Write { to: t1, contents: c1, .. }, SiteAction::Write { to: t2, contents: c2, .. }) => {
                assert_eq!(t1, t2);
                assert_eq!(c1, c2);
                assert_eq!(c1, "A<p><a href=\"b.html\">b</a></p>\n");
            }
            (SiteAction::Copy { to: t1, .. }, SiteAction::Copy { to: t2, .. }) => assert_eq!(t1, t2),
            _ => panic!("actions differ"),
        }
    }
}

fn chapter(p: &BookPart) -> (usize, String, String) {
    match &p.kind {
        PartKind::Chapter { number, zip_path, title } => (*number, zip_path.clone(), title.clone()),
        _ => panic!("expected a chapter"),
    }
}

#[test]
fn chapter_numbering_skips_cover_and_title() {
    let docs = vec![
        doc("book/intro.md", ""),
        doc("book/cover.png", ""),
        doc("book/chapter-a.md", ""),
        doc("book/_title.md", ""),
        doc("book/chapter-b.md", ""),
    ];
    let parts = ok(book_plan(&docs));
    assert_eq!(parts.len(), 5);
    assert_eq!(chapter(&parts[0]), (1, "intro.xhtml".to_string(), "Chapter 1".to_string()));
    assert!(matches!(&parts[1].kind, PartKind::Cover { mime } if mime == "image/png"));
    assert_eq!(chapter(&parts[2]), (2, "chapter-a.xhtml".to_string(), "Chapter 2".to_string()));
    assert!(matches!(&parts[3].kind, PartKind::TitlePage { zip_path } if zip_path == "_title.xhtml"));
    assert_eq!(chapter(&parts[4]), (3, "chapter-b.xhtml".to_string(), "Chapter 3".to_string()));
    assert_eq!(parts[2].source_path, "book/chapter-a.md");
}

#[test]
fn cover_mime_from_extension() {
    let parts = ok(book_plan(&vec![doc("b/_cover.jpeg", ""), doc("c/cover", ""), doc("Cover.png", "")]));
    assert!(matches!(&parts[0].kind, PartKind::Cover { mime } if mime == "image/jpeg"));
    assert!(matches!(&parts[1].kind, PartKind::Cover { mime } if mime == "image/png"));
    assert_eq!(chapter(&parts[2]).0, 1);
}

#[test]
fn book_plan_needs_file_names() {
    match book_plan(&vec![doc("a.md", ""), doc("..", "")]) {
        Err(DocError::Path { path }) => assert_eq!(path, ".."),
        _ => panic!("expected a path error"),
    }
}

#[test]
fn decimals() {
    assert_eq!(decimal_string(0), "0");
    assert_eq!(decimal_string(7), "7");
    assert_eq!(decimal_string(1204), "1204");
}

#[test]
fn test_new_web() {
    let web = Web::new("markdown".into(), "_website".into(), "templates".into(), Vec::new(), Handlebars::new());
    assert_eq!(web.in_path, "markdown");
    assert_eq!(web.out_path, "_website");
    assert_eq!(web.doc_list().len(), 0);
}

#[test]
fn hidden_names() {
    assert!(is_hidden_name(".git"));
    assert!(is_hidden_name("."));
    assert!(!is_hidden_name("a.md"));
    assert!(!is_hidden_name(""));
}

#[test]
fn only_last_md_suffix_is_replaced() {
    assert_eq!(md_link_to_html("x.md.md"), "x.md.html");
    let html = markdown_to_html("[a](x.md.md) and [b](c/d.md)");
    assert!(html.contains("href=\"x.md.html\""));
    assert!(html.contains("href=\"c/d.html\""));
}
