//! The Markdown event stream, as far as the slide renderer looks into it.
use pulldown_cmark::{CodeBlockKind, Event, Parser, Tag, TagEnd};
use crate::syntax::BACKGROUND_STYLE;
use vstd::prelude::*;

verus! {

#[verifier::external_type_specification]
#[verifier::external_body]
pub struct ExEvent<'a>(Event<'a>);

/// One structural event of a Markdown document.
///
/// The renderer acts on thematic breaks, code blocks and text; every other
/// event of the parser is carried through unchanged in `Other`. `Html` is raw
/// HTML that the renderer emits in place of an event.
pub enum MdEvent {
    Rule,
    CodeStart(String),
    CodeEnd,
    Text(String),
    Html(String),
    Other(Event<'static>),
}

/// What an event holds, with its text as characters.
pub enum MdEventView {
    Rule,
    CodeStart(Seq<char>),
    CodeEnd,
    Text(Seq<char>),
    Html(Seq<char>),
    Other(Event<'static>),
}

impl View for MdEvent {
    type V = MdEventView;

    open spec fn view(&self) -> MdEventView {
        match self {
            MdEvent::Rule => MdEventView::Rule,
            MdEvent::CodeStart(lang) => MdEventView::CodeStart(lang@),
            MdEvent::CodeEnd => MdEventView::CodeEnd,
            MdEvent::Text(t) => MdEventView::Text(t@),
            MdEvent::Html(h) => MdEventView::Html(h@),
            MdEvent::Other(e) => MdEventView::Other(*e),
        }
    }
}

/// The views of a sequence of events.
pub open spec fn views(events: Seq<MdEvent>) -> Seq<MdEventView> {
    events.map_values(|e: MdEvent| e@)
}

/// The events that the parser produces for a document, with or without
/// tables.
pub uninterp spec fn events_of(input: Seq<char>, tables: bool) -> Seq<MdEventView>;

/// No event is raw HTML of the renderer's own (the parser's HTML is `Other`).
pub open spec fn no_raw_html(events: Seq<MdEventView>) -> bool {
    forall|i: int| 0 <= i < events.len() ==> !(#[trigger] events[i] is Html)
}

/// Relies on `pulldown_cmark::Parser::new_ext`: parsing is a function of the
/// text and of the options, and every text has a parse (CommonMark gives any
/// sequence of characters a reading). The conversion below makes no `Html`
/// event.
#[verifier::external_body]
pub(crate) fn parse_events(input: &str, tables: bool) -> (r: Vec<MdEvent>)
    ensures
        views(r@) == events_of(input@, tables),
        no_raw_html(views(r@)),
{
    let mut options = pulldown_cmark::Options::empty();
    options.set(pulldown_cmark::Options::ENABLE_TABLES, tables);
    Parser::new_ext(input, options).map(|e| match e {
        Event::Rule => MdEvent::Rule,
        Event::Start(Tag::CodeBlock(CodeBlockKind::Fenced(l))) => MdEvent::CodeStart(l.to_string()),
        Event::Start(Tag::CodeBlock(CodeBlockKind::Indented)) => MdEvent::CodeStart(String::new()),
        Event::End(TagEnd::CodeBlock) => MdEvent::CodeEnd,
        Event::Text(t) => MdEvent::Text(t.to_string()),
        other => MdEvent::Other(other.into_static()),
    }).collect()
}

/// The HTML that the standard Markdown-to-HTML conversion writes for a
/// sequence of events.
pub uninterp spec fn html_of(events: Seq<MdEventView>) -> Seq<char>;

/// Relies on `pulldown_cmark::html::push_html`: the HTML depends on the events
/// (and on their text, not on how it is stored), and raw HTML events are
/// written as they are.
#[verifier::external_body]
pub(crate) fn events_to_html(events: Vec<MdEvent>) -> (r: String)
    ensures
        r@ == html_of(views(events@)),
{
    let mut out = String::new();
    pulldown_cmark::html::push_html(&mut out, events.into_iter().map(|e| match e {
        MdEvent::Rule => Event::Rule,
        MdEvent::CodeStart(l) => Event::Start(Tag::CodeBlock(CodeBlockKind::Fenced(l.into()))),
        MdEvent::CodeEnd => Event::End(TagEnd::CodeBlock),
        MdEvent::Text(t) => Event::Text(t.into()),
        MdEvent::Html(h) => Event::Html(h.into()),
        MdEvent::Other(o) => o,
    }));
    out
}

/// Raw HTML that closes the current slide container and opens the next one.
pub const SLIDE_BREAK: &'static str = "</div>\n</div>\n<div class=\"slide\">\n<div class=\"content\">";

/// Raw HTML that closes a code block.
pub const CODE_END: &'static str = "</pre>";

/// Opening of the markup that the highlighter puts round each styled span.
pub const SPAN_OPEN: &'static str = "<span style=\"";

/// Closing of the markup that the highlighter puts round each styled span.
pub const SPAN_CLOSE: &'static str = "</span>";

/// Opening of the tag that starts a highlighted code block.
pub const PRE_OPEN: &'static str = "<pre";

/// `h` starts with the opening of a `<pre>` tag.
pub open spec fn opens_pre(h: Seq<char>) -> bool {
    PRE_OPEN@.len() <= h.len() && h.subrange(0, PRE_OPEN@.len() as int) == PRE_OPEN@
}

/// `h` is highlighting markup: it opens a styled span first and closes one last.
pub open spec fn is_span_markup(h: Seq<char>) -> bool {
    &&& SPAN_OPEN@.len() + SPAN_CLOSE@.len() <= h.len()
    &&& h.subrange(0, SPAN_OPEN@.len() as int) == SPAN_OPEN@
    &&& h.subrange(h.len() - SPAN_CLOSE@.len(), h.len() as int) == SPAN_CLOSE@
}

/// `m` occurs somewhere in `h`.
pub open spec fn holds_text(h: Seq<char>, m: Seq<char>) -> bool {
    exists|i: int| 0 <= i && i + m.len() <= h.len() && #[trigger] h.subrange(i, i + m.len()) == m
}

/// What the highlighter may make of a line `t`: span markup, or nothing for
/// an empty line; no span sets a background colour of its own.
pub open spec fn is_highlighting_of(h: Seq<char>, t: Seq<char>) -> bool {
    &&& is_span_markup(h) || (t.len() == 0 && h.len() == 0)
    &&& !holds_text(h, BACKGROUND_STYLE@)
}

/// Whether a code block is highlighted after the event `e`, given whether one
/// was before it: a code block whose language token is in `tokens` starts
/// highlighting, its end stops it, and a code block with any other token is
/// left plain.
pub open spec fn highlighting_next(e: MdEventView, active: bool, tokens: Set<Seq<char>>) -> bool {
    match e {
        MdEventView::CodeStart(lang) => tokens.contains(lang),
        MdEventView::CodeEnd => false,
        _ => active,
    }
}

/// Whether a code block is being highlighted after the first `n` events.
pub open spec fn highlighting_after(events: Seq<MdEventView>, tokens: Set<Seq<char>>, n: int) -> bool
    decreases n,
{
    if n <= 0 {
        false
    } else {
        highlighting_next(events[n - 1], highlighting_after(events, tokens, n - 1), tokens)
    }
}

/// What the slide renderer emits for one event `e`, given whether a code
/// block is being highlighted (`active`) and the HTML that opens a code block.
/// A line of a highlighted block becomes highlighting markup, or stays plain
/// text where the highlighter fails on it.
pub open spec fn emits(e: MdEventView, active: bool, code_open: Seq<char>, o: MdEventView) -> bool {
    match e {
        MdEventView::Rule => o == MdEventView::Html(SLIDE_BREAK@),
        MdEventView::CodeStart(_) => o == MdEventView::Html(code_open),
        MdEventView::CodeEnd => o == MdEventView::Html(CODE_END@),
        MdEventView::Text(t) => if active {
            (o is Html && is_highlighting_of(o->Html_0, t)) || o == e
        } else {
            o == e
        },
        _ => o == e,
    }
}

/// `out` is the slide renderer's rewriting of `events`, one event for one.
pub open spec fn rewritten(
    events: Seq<MdEventView>,
    tokens: Set<Seq<char>>,
    code_open: Seq<char>,
    out: Seq<MdEventView>,
) -> bool {
    &&& out.len() == events.len()
    &&& forall|i: int|
        0 <= i < events.len() ==> emits(
            #[trigger] events[i],
            highlighting_after(events, tokens, i),
            code_open,
            out[i],
        )
}

/// Whether some text event of `events` falls inside a highlighted code block.
pub open spec fn highlights_text(events: Seq<MdEventView>, tokens: Set<Seq<char>>) -> bool {
    exists|i: int|
        0 <= i < events.len() && #[trigger] events[i] is Text && highlighting_after(
            events,
            tokens,
            i,
        )
}

/// The number of thematic breaks among `events`.
pub open spec fn rule_count(events: Seq<MdEventView>) -> nat
    decreases events.len(),
{
    if events.len() == 0 {
        0
    } else {
        rule_count(events.drop_last()) + if events.last() is Rule {
            1nat
        } else {
            0nat
        }
    }
}

/// The number of slide breaks among `out`.
pub open spec fn break_count(out: Seq<MdEventView>) -> nat
    decreases out.len(),
{
    if out.len() == 0 {
        0
    } else {
        break_count(out.drop_last()) + if out.last() == MdEventView::Html(SLIDE_BREAK@) {
            1nat
        } else {
            0nat
        }
    }
}

/// The slide break differs from every other piece of HTML that the renderer
/// emits.
proof fn lemma_break_is_distinct(h: Seq<char>)
    ensures
        opens_pre(h) ==> h != SLIDE_BREAK@,
        is_span_markup(h) ==> h != SLIDE_BREAK@,
        CODE_END@ != SLIDE_BREAK@,
        SLIDE_BREAK@.len() > 0,
{
    reveal_strlit("</div>\n</div>\n<div class=\"slide\">\n<div class=\"content\">");
    reveal_strlit("<pre");
    reveal_strlit("<span style=\"");
    reveal_strlit("</pre>");
    if opens_pre(h) && h == SLIDE_BREAK@ {
        assert(h.subrange(0, 4)[1] == SLIDE_BREAK@[1]);
    }
    if is_span_markup(h) && h == SLIDE_BREAK@ {
        assert(h.subrange(0, 13)[1] == SLIDE_BREAK@[1]);
    }
    assert(CODE_END@.len() != SLIDE_BREAK@.len());
}

/// Only a thematic break becomes a slide break: in a rewriting whose input
/// holds no raw HTML of the renderer's own, and whose code blocks open with a
/// `<pre>` tag, the event at `i` is a slide break exactly when the event it
/// comes from is a thematic break.
pub proof fn lemma_break_iff_rule(
    events: Seq<MdEventView>,
    tokens: Set<Seq<char>>,
    code_open: Seq<char>,
    out: Seq<MdEventView>,
    i: int,
)
    requires
        rewritten(events, tokens, code_open, out),
        no_raw_html(events),
        opens_pre(code_open),
        0 <= i < events.len(),
    ensures
        (out[i] == MdEventView::Html(SLIDE_BREAK@)) <==> events[i] is Rule,
{
    assert(emits(events[i], highlighting_after(events, tokens, i), code_open, out[i]));
    match out[i] {
        MdEventView::Html(h) => lemma_break_is_distinct(h),
        _ => {},
    }
    lemma_break_is_distinct(code_open);
}

/// A document with `n` thematic breaks is rewritten into exactly `n` slide
/// breaks; with the opening of the first slide and the closing of the last,
/// that makes `n + 1` slide containers, each opened and closed once.
pub proof fn lemma_one_break_per_rule(
    events: Seq<MdEventView>,
    tokens: Set<Seq<char>>,
    code_open: Seq<char>,
    out: Seq<MdEventView>,
)
    requires
        rewritten(events, tokens, code_open, out),
        no_raw_html(events),
        opens_pre(code_open),
    ensures
        break_count(out) == rule_count(events),
{
    assert forall|i: int| 0 <= i < events.len() implies (out[i] == MdEventView::Html(SLIDE_BREAK@))
        <==> events[i] is Rule by {
        lemma_break_iff_rule(events, tokens, code_open, out, i);
    }
    lemma_counts_agree(events, out);
}

/// Inside a code block that starts at `start` and has not ended by `n`,
/// highlighting is on exactly when the block's language token is known.
proof fn lemma_inside_block(events: Seq<MdEventView>, tokens: Set<Seq<char>>, start: int, n: int)
    requires
        0 <= start < n <= events.len(),
        events[start] is CodeStart,
        forall|k: int|
            start < k < n ==> !(#[trigger] events[k] is CodeStart) && !(events[k] is CodeEnd),
    ensures
        highlighting_after(events, tokens, n) == tokens.contains(events[start]->CodeStart_0),
    decreases n - start,
{
    if n > start + 1 {
        lemma_inside_block(events, tokens, start, n - 1);
    }
}

/// Every line of a code block whose language token is known becomes
/// highlighting markup (span markup without background colours, or nothing
/// for an empty line) unless the highlighter fails on it, when it stays plain
/// text; in a block whose token is unknown, each line is handed on verbatim.
pub proof fn lemma_code_block_lines(
    events: Seq<MdEventView>,
    tokens: Set<Seq<char>>,
    code_open: Seq<char>,
    out: Seq<MdEventView>,
    start: int,
    i: int,
)
    requires
        rewritten(events, tokens, code_open, out),
        0 <= start < i < events.len(),
        events[start] is CodeStart,
        forall|k: int|
            start < k < i ==> !(#[trigger] events[k] is CodeStart) && !(events[k] is CodeEnd),
        events[i] is Text,
    ensures
        tokens.contains(events[start]->CodeStart_0) ==> (out[i] is Html && is_highlighting_of(
            out[i]->Html_0,
            events[i]->Text_0,
        )) || out[i] == events[i],
        !tokens.contains(events[start]->CodeStart_0) ==> out[i] == events[i],
{
    lemma_inside_block(events, tokens, start, i);
    assert(emits(events[i], highlighting_after(events, tokens, i), code_open, out[i]));
}

/// Two sequences of one length that hold a thematic break and a slide break
/// at the same places have as many of each.
proof fn lemma_counts_agree(events: Seq<MdEventView>, out: Seq<MdEventView>)
    requires
        out.len() == events.len(),
        forall|i: int|
            0 <= i < events.len() ==> ((out[i] == MdEventView::Html(SLIDE_BREAK@))
                <==> #[trigger] events[i] is Rule),
    ensures
        break_count(out) == rule_count(events),
    decreases events.len(),
{
    if events.len() > 0 {
        let n = events.len() - 1;
        assert(events[n] is Rule <==> out[n] == MdEventView::Html(SLIDE_BREAK@));
        lemma_counts_agree(events.drop_last(), out.drop_last());
    }
}

} // verus!
