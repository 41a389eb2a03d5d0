//! Markdown to HTML, with links to Markdown pages and audio files rewritten.
use crate::path::{extension, extension_str};
use crate::text::{ends_with, ends_with_str, str_eq};
use pulldown_cmark::{Event, LinkType, Tag};
use vstd::prelude::*;
use vstd::string::*;

verus! {

#[verifier::external_type_specification]
#[verifier::external_body]
pub struct ExEvent<'a>(Event<'a>);

#[verifier::external_type_specification]
#[verifier::external_body]
pub struct ExLinkType(LinkType);

/// One event of a parsed Markdown document, as far as link rewriting reads it.
pub enum MdEvent<'a> {
    /// The start of a link to `url`.
    LinkStart { link_type: LinkType, url: String, title: String },
    /// A run of text.
    Text(String),
    /// Raw HTML.
    Html(String),
    /// Any other event, passed through as it came.
    Other(Event<'a>),
}

/// What an event holds, with strings as character sequences.
pub enum EventView<'a> {
    LinkStart { link_type: LinkType, url: Seq<char>, title: Seq<char> },
    Text(Seq<char>),
    Html(Seq<char>),
    Other(Event<'a>),
}

impl<'a> MdEvent<'a> {
    pub open spec fn view(&self) -> EventView<'a> {
        match self {
            MdEvent::LinkStart { link_type, url, title } => EventView::LinkStart {
                link_type: *link_type,
                url: url@,
                title: title@,
            },
            MdEvent::Text(t) => EventView::Text(t@),
            MdEvent::Html(h) => EventView::Html(h@),
            MdEvent::Other(e) => EventView::Other(*e),
        }
    }
}

pub open spec fn events_view<'a>(v: Seq<MdEvent<'a>>) -> Seq<EventView<'a>> {
    v.map_values(|e: MdEvent<'a>| e@)
}

/// The MIME type of a recognised audio file extension.
pub open spec fn audio_mime_of_ext(ext: Seq<char>) -> Option<Seq<char>> {
    if ext == "mp3"@ {
        Some("audio/mpeg"@)
    } else if ext == "ogg"@ || ext == "oga"@ {
        Some("audio/ogg"@)
    } else if ext == "wav"@ {
        Some("audio/wav"@)
    } else if ext == "m4a"@ {
        Some("audio/mp4"@)
    } else if ext == "flac"@ {
        Some("audio/flac"@)
    } else if ext == "aac"@ {
        Some("audio/aac"@)
    } else if ext == "opus"@ {
        Some("audio/opus"@)
    } else {
        None
    }
}

/// The MIME type of a link target that names an audio file.
pub open spec fn audio_mime(url: Seq<char>) -> Option<Seq<char>> {
    match extension(url) {
        Some(e) => audio_mime_of_ext(e),
        None => None,
    }
}

/// The target of a link to a Markdown page, pointed at the page's HTML output.
pub open spec fn html_target(url: Seq<char>) -> Seq<char> {
    url.subrange(0, url.len() - 3) + ".html"@
}

/// The inline player that stands in for a link to an audio file.
pub open spec fn audio_markup(
    url: Seq<char>,
    title: Seq<char>,
    label: Seq<char>,
    mime: Seq<char>,
) -> Seq<char> {
    "<audio controls><source src=\""@ + url + "\" type=\""@ + mime
        + "\">Your browser does not support the audio element. "@ + "<a href=\""@ + url
        + "\" title=\""@ + title + "\" class=\"audio\"><span class=\"fa-solid fa-play\">"@
        + label + "</span></a></audio>"@
}

/// The label of an audio player and how many events after the link it uses up:
/// the link's text and the event after it; a lone event after the link that is
/// no text; or nothing, where the link is the last event.
pub open spec fn audio_label<'a>(rest: Seq<EventView<'a>>) -> (Seq<char>, int) {
    if rest.len() == 0 {
        (Seq::empty(), 0)
    } else {
        match rest[0] {
            EventView::Text(t) => (t, if rest.len() >= 2 { 2 } else { 1 }),
            _ => ("#"@, 1),
        }
    }
}

/// The event list after rewriting: a link whose target ends in `.md` points at
/// `.html` instead; a link to an audio file, with the text and the event that
/// follow it, becomes one HTML player; every other event stays.
pub open spec fn rewrite_events<'a>(ev: Seq<EventView<'a>>) -> Seq<EventView<'a>>
    decreases ev.len(),
{
    if ev.len() == 0 {
        Seq::empty()
    } else {
        let rest = ev.drop_first();
        match ev[0] {
            EventView::LinkStart { link_type, url, title } => if ends_with(url, ".md"@) {
                seq![EventView::LinkStart { link_type, url: html_target(url), title }]
                    + rewrite_events(rest)
            } else {
                match audio_mime(url) {
                    Some(mime) => {
                        let (label, used) = audio_label(rest);
                        seq![EventView::Html(audio_markup(url, title, label, mime))]
                            + rewrite_events(rest.subrange(used, rest.len() as int))
                    },
                    None => seq![ev[0]] + rewrite_events(rest),
                }
            },
            _ => seq![ev[0]] + rewrite_events(rest),
        }
    }
}

/// The MIME type of an audio file extension, if it is one this library plays.
pub fn audio_mime_for_ext(ext: &str) -> (r: Option<&'static str>)
    ensures
        match r {
            Some(m) => audio_mime_of_ext(ext@) == Some(m@),
            None => audio_mime_of_ext(ext@) is None,
        },
{
    if str_eq(ext, "mp3") {
        Some("audio/mpeg")
    } else if str_eq(ext, "ogg") || str_eq(ext, "oga") {
        Some("audio/ogg")
    } else if str_eq(ext, "wav") {
        Some("audio/wav")
    } else if str_eq(ext, "m4a") {
        Some("audio/mp4")
    } else if str_eq(ext, "flac") {
        Some("audio/flac")
    } else if str_eq(ext, "aac") {
        Some("audio/aac")
    } else if str_eq(ext, "opus") {
        Some("audio/opus")
    } else {
        None
    }
}

/// The MIME type of the audio file a link target names, if it names one.
pub fn audio_mime_for_url(url: &str) -> (r: Option<&'static str>)
    ensures
        match r {
            Some(m) => audio_mime(url@) == Some(m@),
            None => audio_mime(url@) is None,
        },
{
    match extension_str(url) {
        Some(e) => audio_mime_for_ext(e.as_str()),
        None => None,
    }
}

/// Whether a link target names an audio file.
pub fn is_audio_file(url: &str) -> (r: bool)
    ensures
        r == audio_mime(url@) is Some,
{
    audio_mime_for_url(url).is_some()
}

/// A link target ending in `.md`, with that suffix replaced by `.html`.
pub fn md_link_to_html(url: &str) -> (r: String)
    requires
        ends_with(url@, ".md"@),
    ensures
        r@ == html_target(url@),
{
    let n = url.unicode_len();
    proof {
        reveal_strlit(".md");
    }
    let mut r = String::from_str(url.substring_char(0, n - 3));
    r.append(".html");
    r
}

/// The inline audio player for a link to `url` labelled `label`.
pub fn audio_player(url: &str, title: &str, label: &str, mime: &str) -> (r: String)
    ensures
        r@ == audio_markup(url@, title@, label@, mime@),
{
    let mut r = String::from_str("<audio controls><source src=\"");
    r.append(url);
    r.append("\" type=\"");
    r.append(mime);
    r.append("\">Your browser does not support the audio element. ");
    r.append("<a href=\"");
    r.append(url);
    r.append("\" title=\"");
    r.append(title);
    r.append("\" class=\"audio\"><span class=\"fa-solid fa-play\">");
    r.append(label);
    r.append("</span></a></audio>");
    r
}

/// Rewrites links to Markdown pages and to audio files, in one pass that looks at
/// most two events past an audio link.
pub fn rewrite_links<'a>(events: Vec<MdEvent<'a>>) -> (r: Vec<MdEvent<'a>>)
    ensures
        events_view(r@) == rewrite_events(events_view(events@)),
{
    let ghost all = events_view(events@);
    let mut input = events;
    let mut out: Vec<MdEvent<'a>> = Vec::new();
    while input.len() > 0
        invariant
            rewrite_events(all) == events_view(out@) + rewrite_events(events_view(input@)),
        decreases input.len(),
    {
        let ghost before = events_view(input@);
        let ghost out_before = events_view(out@);
        let e = input.remove(0);
        assert(events_view(input@) =~= before.drop_first());
        match e {
            MdEvent::LinkStart { link_type, url, title } => {
                if ends_with_str(url.as_str(), ".md") {
                    let target = md_link_to_html(url.as_str());
                    out.push(MdEvent::LinkStart { link_type, url: target, title });
                } else {
                    match audio_mime_for_url(url.as_str()) {
                        Some(mime) => {
                            let ghost rest = events_view(input@);
                            let label: String = if input.len() == 0 {
                                String::new()
                            } else {
                                let next = input.remove(0);
                                match next {
                                    MdEvent::Text(t) => {
                                        if input.len() > 0 {
                                            let _closing = input.remove(0);
                                        }
                                        t
                                    },
                                    _ => String::from_str("#"),
                                }
                            };
                            proof {
                                reveal_strlit("#");
                                let (l, used) = audio_label(rest);
                                assert(label@ == l);
                                assert(events_view(input@) =~= rest.subrange(used, rest.len() as int));
                            }
                            let html = audio_player(url.as_str(), title.as_str(), label.as_str(), mime);
                            out.push(MdEvent::Html(html));
                        },
                        None => {
                            out.push(MdEvent::LinkStart { link_type, url, title });
                        },
                    }
                }
            },
            other => {
                out.push(other);
            },
        }
        assert(events_view(out@) =~= out_before + rewrite_events(before).subrange(0, events_view(out@).len() - out_before.len()));
    }
    assert(events_view(out@) =~= events_view(out@) + Seq::<EventView<'a>>::empty());
    out
}

/// The events that the Markdown parser gives for a document.
pub uninterp spec fn parsed_events(markdown: Seq<char>) -> Seq<EventView<'static>>;

/// The HTML that the renderer writes for a list of events.
pub uninterp spec fn rendered_html(events: Seq<EventView<'static>>) -> Seq<char>;

/// Relies on `pulldown_cmark::Parser` with strikethrough enabled: the events of
/// the document, which depend on its text alone, a link's start, a text run and
/// any other event told apart.
#[verifier::external_body]
fn parse_markdown<'a>(markdown: &'a str) -> (r: Vec<MdEvent<'a>>)
    ensures
        events_view(r@) == parsed_events(markdown@),
{
    let options = pulldown_cmark::Options::ENABLE_STRIKETHROUGH;
    pulldown_cmark::Parser::new_ext(markdown, options).map(|e| match e {
        Event::Start(Tag::Link(link_type, url, title)) => MdEvent::LinkStart {
            link_type,
            url: url.to_string(),
            title: title.to_string(),
        },
        Event::Text(text) => MdEvent::Text(text.to_string()),
        other => MdEvent::Other(other),
    }).collect()
}

/// Relies on `pulldown_cmark::html::push_html`: the HTML of an event list, which
/// depends on the events alone.
#[verifier::external_body]
fn render_html(events: Vec<MdEvent<'_>>) -> (r: String)
    ensures
        r@ == rendered_html(events_view(events@)),
{
    let mut html = String::new();
    pulldown_cmark::html::push_html(&mut html, events.into_iter().map(|e| match e {
        MdEvent::LinkStart { link_type, url, title } => {
            Event::Start(Tag::Link(link_type, url.into(), title.into()))
        },
        MdEvent::Text(text) => Event::Text(text.into()),
        MdEvent::Html(html) => Event::Html(html.into()),
        MdEvent::Other(e) => e,
    }));
    html
}

/// The HTML of a Markdown document, its links rewritten as `rewrite_links` does.
pub open spec fn markdown_html(markdown: Seq<char>) -> Seq<char> {
    rendered_html(rewrite_events(parsed_events(markdown)))
}

/// The HTML of a Markdown document, its links rewritten as `rewrite_links` does.
pub fn markdown_to_html(markdown: &str) -> (r: String)
    ensures
        r@ == markdown_html(markdown@),
{
    let events = parse_markdown(markdown);
    let rewritten = rewrite_links(events);
    render_html(rewritten)
}

/// A link whose target ends in `.md` comes out first, pointing at the same target
/// with `.html` in place of `.md`, its type and title kept.
pub proof fn lemma_md_link_rewritten<'a>(
    link_type: LinkType,
    url: Seq<char>,
    title: Seq<char>,
    rest: Seq<EventView<'a>>,
)
    requires
        ends_with(url, ".md"@),
    ensures
        ({
            let out = rewrite_events(seq![EventView::LinkStart { link_type, url, title }] + rest);
            let target = html_target(url);
            &&& out[0] == EventView::LinkStart { link_type, url: target, title }
            &&& ends_with(target, ".html"@)
            &&& target.subrange(0, url.len() - 3) == url.subrange(0, url.len() - 3)
        }),
{
    let ev = seq![EventView::LinkStart { link_type, url, title }] + rest;
    assert(ev.drop_first() =~= rest);
    assert(ev[0] == EventView::LinkStart { link_type, url, title });
    let target = html_target(url);
    reveal_strlit(".md");
    reveal_strlit(".html");
    assert(target.subrange(target.len() - 5, target.len() as int) =~= ".html"@);
    assert(target.subrange(0, url.len() - 3) =~= url.subrange(0, url.len() - 3));
}

/// The event is the start of a link to an audio file that is no Markdown page.
pub open spec fn is_audio_link<'a>(e: EventView<'a>) -> bool {
    e matches EventView::LinkStart { url, .. } && !ends_with(url, ".md"@) && audio_mime(url) is Some
}

/// The event with a link to a Markdown page pointed at its HTML page.
pub open spec fn relinked<'a>(e: EventView<'a>) -> EventView<'a> {
    match e {
        EventView::LinkStart { link_type, url, title } => if ends_with(url, ".md"@) {
            EventView::LinkStart { link_type, url: html_target(url), title }
        } else {
            e
        },
        _ => e,
    }
}

/// Where no event is an audio link, rewriting changes the links to Markdown pages,
/// wherever they stand, to point at `.html`, and nothing else: the same events in
/// the same places.
pub proof fn lemma_md_links_rewritten_everywhere<'a>(ev: Seq<EventView<'a>>)
    requires
        forall|i: int| 0 <= i < ev.len() ==> !is_audio_link(#[trigger] ev[i]),
    ensures
        rewrite_events(ev) == ev.map_values(|e: EventView<'a>| relinked(e)),
    decreases ev.len(),
{
    if ev.len() > 0 {
        let rest = ev.drop_first();
        assert forall|i: int| 0 <= i < rest.len() implies !is_audio_link(#[trigger] rest[i]) by {
            assert(rest[i] == ev[i + 1]);
        }
        lemma_md_links_rewritten_everywhere(rest);
        assert(!is_audio_link(ev[0]));
        assert(rewrite_events(ev) == seq![relinked(ev[0])] + rewrite_events(rest));
        assert(rewrite_events(ev) =~= ev.map_values(|e: EventView<'a>| relinked(e)));
    }
}

} // verus!
