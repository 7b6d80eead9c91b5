//! Rendering a Markdown document into slides: the per-event state machine,
//! the renderer that owns grammars and theme, and the HTML document.
use crate::assets::{
    asset_source, css_minified, join_asset, join_script, js_minified, minify_css, minify_js,
    script_text, BUILTIN_STYLE,
};
use crate::error::Error;
use crate::markdown::{
    emits, events_of, events_to_html, highlighting_after, highlighting_next, highlights_text,
    html_of, is_highlighting_of, lemma_one_break_per_rule, no_raw_html, opens_pre, parse_events,
    rule_count, break_count, rewritten, views, MdEvent, MdEventView, CODE_END, SLIDE_BREAK,
};
use crate::syntax::{
    add_themes_from, code_block_open, find_syntax, highlight_line, load_syntaxes, load_themes,
    new_highlighter, spans_to_html, syntax_tokens, take_theme, theme_names, DEFAULT_THEME,
    builtin_theme_names, grammar_of, highlighter_grammar,
};
use std::path::PathBuf;
use syntect::easy::HighlightLines;
use syntect::highlighting::{Theme, ThemeSet};
use syntect::parsing::SyntaxSet;
use vstd::prelude::*;

verus! {

/// Tables are part of the Markdown that decks are written in.
pub const TABLES: bool = true;

/// Highlighted spans get no background colour of their own: the code block's
/// `<pre>` carries the theme's.
pub const SPAN_BACKGROUND: bool = false;

/// Raw HTML that opens the first slide container.
pub const SLIDE_OPEN: &'static str = "<div class=\"slide\">\n<div class=\"content\">\n";

/// Raw HTML that closes the last slide container.
pub const SLIDE_CLOSE: &'static str = "</div>\n</div>";

/// The body of a deck whose converted events read `html`: the first slide is
/// opened before it and the last one closed after it.
pub open spec fn slide_body(html: Seq<char>) -> Seq<char> {
    SLIDE_OPEN@ + html + SLIDE_CLOSE@
}

/// A rendered deck, ready to be written out as one HTML document.
pub struct Output {
    pub title: Option<String>,
    pub style: String,
    pub script: String,
    pub body: String,
}

/// Start of the HTML document, up to the title.
pub const DOC_START: &'static str = "<html>\n<head>\n<meta charset=\"utf-8\">\n";

/// Start of the title element.
pub const TITLE_OPEN: &'static str = "<title>";

/// End of the title element.
pub const TITLE_CLOSE: &'static str = "</title>\n";

/// Start of the style element.
pub const STYLE_OPEN: &'static str = "<style>\n";

/// From the end of the style to the start of the script.
pub const STYLE_TO_SCRIPT: &'static str = "\n</style>\n<script type=\"text/javascript\">\n";

/// From the end of the script to the start of the body.
pub const SCRIPT_TO_BODY: &'static str = "\n</script>\n</head>\n<body>\n";

/// End of the HTML document.
pub const DOC_END: &'static str = "\n</body>\n</html>\n";

/// The title element for an optional title.
pub open spec fn title_part(title: Option<String>) -> Seq<char> {
    match title {
        Some(t) => TITLE_OPEN@ + t@ + TITLE_CLOSE@,
        None => Seq::empty(),
    }
}

impl Output {
    /// The whole HTML document of the deck.
    pub open spec fn document(&self) -> Seq<char> {
        DOC_START@ + title_part(self.title) + STYLE_OPEN@ + self.style@ + STYLE_TO_SCRIPT@
            + self.script@ + SCRIPT_TO_BODY@ + self.body@ + DOC_END@
    }

    /// Writes the deck as one HTML document: meta data, title, inlined style
    /// and script in the head, then the slides in the body.
    pub fn to_html(&self) -> (r: String)
        ensures
            r@ == self.document(),
    {
        let mut r = DOC_START.to_owned();
        match &self.title {
            Some(t) => {
                r.append(TITLE_OPEN);
                r.append(t.as_str());
                r.append(TITLE_CLOSE);
            },
            None => {},
        }
        r.append(STYLE_OPEN);
        r.append(self.style.as_str());
        r.append(STYLE_TO_SCRIPT);
        r.append(self.script.as_str());
        r.append(SCRIPT_TO_BODY);
        r.append(self.body.as_str());
        r.append(DOC_END);
        proof {
            assert(r@ =~= self.document());
        }
        r
    }
}

/// What a renderer is built from: an optional page title, the name of the
/// highlighting theme (the default theme when there is none), and folders of
/// further theme files.
pub struct Options {
    pub title: Option<String>,
    pub theme: Option<String>,
    pub theme_dirs: Vec<PathBuf>,
}

impl Default for Options {
    fn default() -> (r: Options)
        ensures
            r.title is None,
            r.theme is None,
            r.theme_dirs@.len() == 0,
    {
        Options { title: None, theme: None, theme_dirs: Vec::new() }
    }
}

/// The theme that is used for a requested theme name.
pub open spec fn chosen_theme(theme: Option<String>) -> Seq<char> {
    match theme {
        Some(t) => t@,
        None => DEFAULT_THEME@,
    }
}

/// Whether a code block is being highlighted, and by which line highlighter
/// (with the language token whose grammar it parses with). Only the renderer
/// makes one, from its own grammars.
enum HighlightState<'a> {
    Inactive,
    Active(HighlightLines<'a>, Ghost<Seq<char>>),
}

impl<'a> HighlightState<'a> {
    spec fn is_active(&self) -> bool {
        self is Active
    }
}

/// What a line of a highlighted code block becomes, given the highlighter's
/// outcome on it: its markup, or the line itself, as plain text, where
/// highlighting failed.
pub fn highlighted_or_plain(text: String, outcome: Result<String, String>) -> (r: MdEvent)
    ensures
        match outcome {
            Ok(h) => r@ == MdEventView::Html(h@),
            Err(_) => r@ == MdEventView::Text(text@),
        },
{
    match outcome {
        Ok(h) => MdEvent::Html(h),
        Err(_) => MdEvent::Text(text),
    }
}

/// Turns Markdown into slides with one set of grammars and one theme, both
/// loaded once and only read afterwards.
pub struct Renderer {
    syntax_set: SyntaxSet,
    theme: Theme,
    title: Option<String>,
    code_open: String,
    theme_name: Ghost<Seq<char>>,
}

impl Renderer {
    /// A code block always opens with a `<pre>` tag.
    #[verifier::type_invariant]
    spec fn well_formed(&self) -> bool {
        opens_pre(self.code_open@)
    }

    /// The language tokens for which code blocks are highlighted.
    pub closed spec fn tokens(&self) -> Set<Seq<char>> {
        syntax_tokens(self.syntax_set)
    }

    /// The HTML that opens a code block, in the theme's colours.
    pub closed spec fn code_open(&self) -> Seq<char> {
        self.code_open@
    }

    /// The title that every rendered deck gets.
    pub closed spec fn title(&self) -> Option<String> {
        self.title
    }

    /// The name of the theme in use.
    pub closed spec fn theme_name(&self) -> Seq<char> {
        self.theme_name@
    }

    /// Builds a renderer from loaded grammars and themes, with the theme
    /// named `theme` (the default theme when `None`).
    pub fn with_theme_set(
        syntax_set: SyntaxSet,
        theme_set: ThemeSet,
        theme: Option<String>,
        title: Option<String>,
    ) -> (r: Result<Renderer, Error>)
        ensures
            r is Ok <==> theme_names(theme_set).contains(chosen_theme(theme)),
            match r {
                Ok(renderer) => {
                    &&& renderer.tokens() == syntax_tokens(syntax_set)
                    &&& renderer.theme_name() == chosen_theme(theme)
                    &&& renderer.title() == title
                },
                Err(e) => e is ThemeNotFound,
            },
    {
        let mut theme_set = theme_set;
        let name = match theme {
            Some(t) => t,
            None => DEFAULT_THEME.to_owned(),
        };
        match take_theme(&mut theme_set, name.as_str()) {
            Some(found) => {
                let code_open = code_block_open(&found);
                Ok(Renderer {
                    syntax_set,
                    theme: found,
                    title,
                    code_open,
                    theme_name: Ghost(name@),
                })
            },
            None => Err(Error::ThemeNotFound),
        }
    }

    /// `state` highlights, if at all, with a grammar of this renderer's set.
    spec fn serves(&self, state: HighlightState) -> bool {
        match state {
            HighlightState::Active(highlighter, token) => {
                &&& syntax_tokens(self.syntax_set).contains(token@)
                &&& highlighter_grammar(highlighter) == grammar_of(self.syntax_set, token@)
            },
            HighlightState::Inactive => true,
        }
    }

    /// Highlights the text of one code block line and writes it as HTML
    /// spans without a background colour of their own; a failure comes back
    /// as its message.
    fn highlight_text(&self, highlighter: &mut HighlightLines, text: &String, token: Ghost<
        Seq<char>,
    >) -> (r: Result<String, String>)
        requires
            syntax_tokens(self.syntax_set).contains(token@),
            highlighter_grammar(*old(highlighter)) == grammar_of(self.syntax_set, token@),
        ensures
            r is Ok ==> is_highlighting_of(r->Ok_0@, text@),
            highlighter_grammar(*final(highlighter)) == highlighter_grammar(*old(highlighter)),
    {
        let spans = match highlight_line(highlighter, text.as_str(), &self.syntax_set) {
            Ok(spans) => spans,
            Err(m) => return Err(m),
        };
        spans_to_html(&spans, SPAN_BACKGROUND)
    }

    /// Handles one Markdown event: a thematic break becomes a slide break, a
    /// code block opens and closes a `<pre>` and starts highlighting when its
    /// language is known, text inside a highlighted block becomes styled
    /// spans (or stays plain where highlighting fails), and every other event
    /// is handed on unchanged.
    fn step<'a>(&'a self, state: &mut HighlightState<'a>, event: MdEvent) -> (o: MdEvent)
        requires
            self.serves(*old(state)),
        ensures
            emits(event@, old(state).is_active(), self.code_open(), o@),
            final(state).is_active() == highlighting_next(
                event@,
                old(state).is_active(),
                self.tokens(),
            ),
            self.serves(*final(state)),
    {
        match event {
            MdEvent::Rule => MdEvent::Html(SLIDE_BREAK.to_owned()),
            MdEvent::CodeStart(lang) => {
                *state = match find_syntax(&self.syntax_set, lang.as_str()) {
                    Some(syntax) => HighlightState::Active(
                        new_highlighter(syntax, &self.theme),
                        Ghost(lang@),
                    ),
                    None => HighlightState::Inactive,
                };
                MdEvent::Html(self.code_open.clone())
            },
            MdEvent::CodeEnd => {
                *state = HighlightState::Inactive;
                MdEvent::Html(CODE_END.to_owned())
            },
            MdEvent::Text(text) => {
                match state {
                    HighlightState::Active(highlighter, token) => {
                        let outcome = self.highlight_text(highlighter, &text, Ghost(token@));
                        highlighted_or_plain(text, outcome)
                    },
                    HighlightState::Inactive => MdEvent::Text(text),
                }
            },
            other => other,
        }
    }

    /// Rewrites a whole event sequence, in order, starting outside any code
    /// block: a thematic break becomes a slide break, a code block opens and
    /// closes a `<pre>` and is highlighted when its language is known, and
    /// every other event is handed on unchanged.
    pub fn slide_events(&self, events: Vec<MdEvent>) -> (out: Vec<MdEvent>)
        ensures
            rewritten(views(events@), self.tokens(), self.code_open(), views(out@)),
    {
        let ghost evs = views(events@);
        let ghost tokens = self.tokens();
        let mut out: Vec<MdEvent> = Vec::new();
        let mut state = HighlightState::Inactive;
        for event in it: events.into_iter()
            invariant
                tokens == self.tokens(),
                out@.len() == it.index(),
                evs == views(it.seq()),
                it.index() <= evs.len(),
                self.serves(state),
                state.is_active() == highlighting_after(evs, tokens, it.index() as int),
                forall|i: int|
                    0 <= i < it.index() ==> emits(
                        #[trigger] evs[i],
                        highlighting_after(evs, tokens, i),
                        self.code_open(),
                        out@[i]@,
                    ),
        {
            let ghost k = it.index() as int;
            assert(evs[k] == event@);
            let o = self.step(&mut state, event);
            assert(highlighting_after(evs, tokens, k + 1) == highlighting_next(
                evs[k],
                highlighting_after(evs, tokens, k),
                tokens,
            ));
            out.push(o);
        }
        out
    }

    /// The style text handed to the minifier: the built-in stylesheet, then
    /// the custom one.
    pub open spec fn style_source(css: Option<String>) -> Seq<char> {
        asset_source(BUILTIN_STYLE@, css)
    }

    /// The script text handed to the minifier: the built-in script, the
    /// custom one, and an empty comment that closes any comment left open.
    pub open spec fn script_source(js: Option<String>) -> Seq<char> {
        script_text(js)
    }

    /// `out` is a deck that this renderer makes of `input` with the custom
    /// assets `css` and `js`.
    pub open spec fn renders_to(
        &self,
        input: Seq<char>,
        css: Option<String>,
        js: Option<String>,
        out: Output,
    ) -> bool {
        &&& out.title == self.title()
        &&& opens_pre(self.code_open())
        &&& no_raw_html(events_of(input, TABLES))
        &&& css_minified(Renderer::style_source(css)) == Some(out.style@)
        &&& out.script@ == js_minified(Renderer::script_source(js))
        &&& exists|slides: Seq<MdEventView>|
            rewritten(events_of(input, TABLES), self.tokens(), self.code_open(), slides)
                && out.body@ == slide_body(#[trigger] html_of(slides))
    }

    /// Renders a Markdown document into a deck: the events of the parser are
    /// rewritten into slides (see `slide_events`), converted to HTML and framed by the
    /// first slide's opening and the last one's closing; the built-in style
    /// and script, each followed by its custom text, are minified.
    pub fn render(&self, input: String, css: Option<String>, js: Option<String>) -> (r: Result<
        Output,
        Error,
    >)
        ensures
            r is Ok <==> css_minified(Renderer::style_source(css)) is Some,
            match r {
                Ok(out) => self.renders_to(input@, css, js, out),
                Err(e) => e is Minification,
            },
    {
        proof {
            use_type_invariant(self);
        }
        let events = parse_events(input.as_str(), TABLES);
        let slides = self.slide_events(events);
        let ghost slides_view = views(slides@);
        let html = events_to_html(slides);
        let mut body = SLIDE_OPEN.to_owned();
        body.append(html.as_str());
        body.append(SLIDE_CLOSE);
        let style_text = join_asset(BUILTIN_STYLE, &css);
        let style = match minify_css(style_text.as_str()) {
            Ok(style) => style,
            Err(m) => return Err(Error::Minification(m)),
        };
        let script_text = join_script(&js);
        let script = minify_js(script_text.as_str());
        let title = self.title.clone();
        let out = Output { title, style, script, body };
        proof {
            assert(out.body@ =~= slide_body(html_of(slides_view)));
        }
        Ok(out)
    }

    /// Loads the built-in grammars and themes, adds the themes found in each
    /// of `options.theme_dirs` (a later one replaces a theme of the same
    /// name), and picks the requested theme.
    pub fn try_new(options: Options) -> (r: Result<Renderer, Error>)
        ensures
            match r {
                Ok(renderer) => {
                    &&& renderer.theme_name() == chosen_theme(options.theme)
                    &&& renderer.title() == options.title
                },
                Err(e) => e is ThemeNotFound || (e is Syntect && options.theme_dirs@.len() > 0),
            },
            options.theme_dirs@.len() == 0 ==> (r is Ok <==> builtin_theme_names().contains(
                chosen_theme(options.theme),
            )),
            builtin_theme_names().contains(chosen_theme(options.theme)) ==> (r is Ok
                || r->Err_0 is Syntect),
            options.theme is None && options.theme_dirs@.len() == 0 ==> r is Ok,
    {
        let syntax_set = load_syntaxes();
        let mut theme_set = load_themes();
        let mut i: usize = 0;
        while i < options.theme_dirs.len()
            invariant
                i <= options.theme_dirs@.len(),
                builtin_theme_names().subset_of(theme_names(theme_set)),
                options.theme_dirs@.len() == 0 ==> theme_names(theme_set) == builtin_theme_names(),
            decreases options.theme_dirs@.len() - i,
        {
            match add_themes_from(&mut theme_set, &options.theme_dirs[i]) {
                Ok(()) => {},
                Err(m) => return Err(Error::Syntect(m)),
            }
            i = i + 1;
        }
        Renderer::with_theme_set(syntax_set, theme_set, options.theme, options.title)
    }
}

/// A deck rendered from a document with `n` thematic breaks has a body made
/// of the first slide's opening, the HTML of events among which are exactly
/// `n` slide breaks, and the last slide's closing: `n + 1` slide containers.
pub proof fn lemma_deck_slide_count(
    renderer: Renderer,
    input: Seq<char>,
    css: Option<String>,
    js: Option<String>,
    out: Output,
)
    requires
        renderer.renders_to(input, css, js, out),
    ensures
        exists|slides: Seq<MdEventView>|
            out.body@ == slide_body(#[trigger] html_of(slides)) && break_count(slides)
                == rule_count(events_of(input, TABLES)),
{
    let slides = choose|slides: Seq<MdEventView>|
        rewritten(events_of(input, TABLES), renderer.tokens(), renderer.code_open(), slides)
            && out.body@ == slide_body(#[trigger] html_of(slides));
    lemma_one_break_per_rule(events_of(input, TABLES), renderer.tokens(), renderer.code_open(), slides);
    assert(out.body@ == slide_body(html_of(slides)) && break_count(slides) == rule_count(
        events_of(input, TABLES),
    ));
}

/// Rendering is repeatable: two decks that one renderer makes of the same
/// document and custom assets are the same, byte for byte, wherever no line
/// falls in a highlighted code block (such a line is only known to become span
/// markup, or to stay as it is where the highlighter fails).
pub proof fn lemma_render_repeatable(
    renderer: Renderer,
    input: Seq<char>,
    css: Option<String>,
    js: Option<String>,
    a: Output,
    b: Output,
)
    requires
        renderer.renders_to(input, css, js, a),
        renderer.renders_to(input, css, js, b),
        !highlights_text(events_of(input, TABLES), renderer.tokens()),
    ensures
        a.title == b.title,
        a.style@ == b.style@,
        a.script@ == b.script@,
        a.body@ == b.body@,
{
    let events = events_of(input, TABLES);
    let tokens = renderer.tokens();
    let code_open = renderer.code_open();
    let sa = choose|slides: Seq<MdEventView>|
        rewritten(events, tokens, code_open, slides) && a.body@ == slide_body(
            #[trigger] html_of(slides),
        );
    let sb = choose|slides: Seq<MdEventView>|
        rewritten(events, tokens, code_open, slides) && b.body@ == slide_body(
            #[trigger] html_of(slides),
        );
    assert forall|i: int| 0 <= i < events.len() implies sa[i] == sb[i] by {
        assert(emits(events[i], highlighting_after(events, tokens, i), code_open, sa[i]));
        assert(emits(events[i], highlighting_after(events, tokens, i), code_open, sb[i]));
        if events[i] is Text && highlighting_after(events, tokens, i) {
            assert(highlights_text(events, tokens));
        }
    }
    assert(sa =~= sb);
}

} // verus!
