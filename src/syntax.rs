//! Grammars, colour themes and line highlighting, as the renderer uses them.
use crate::markdown::{holds_text, is_span_markup, opens_pre};
use std::path::PathBuf;
use syntect::easy::HighlightLines;
use syntect::highlighting::{Style, Theme, ThemeSet};
use syntect::html::IncludeBackground;
use syntect::parsing::{SyntaxReference, SyntaxSet};
use vstd::prelude::*;

verus! {

#[verifier::external_type_specification]
#[verifier::external_body]
pub struct ExPathBuf(PathBuf);

#[verifier::external_type_specification]
#[verifier::external_body]
pub struct ExSyntaxSet(SyntaxSet);

#[verifier::external_type_specification]
#[verifier::external_body]
pub struct ExSyntaxReference(SyntaxReference);

#[verifier::external_type_specification]
#[verifier::external_body]
pub struct ExTheme(Theme);

#[verifier::external_type_specification]
#[verifier::external_body]
pub struct ExThemeSet(ThemeSet);

#[verifier::external_type_specification]
#[verifier::external_body]
pub struct ExHighlightLines<'a>(HighlightLines<'a>);

#[verifier::external_type_specification]
#[verifier::external_body]
pub struct ExStyle(Style);

/// The name of the theme used when none is asked for.
pub const DEFAULT_THEME: &'static str = "base16-ocean.dark";

/// The language tokens for which a syntax set holds a grammar: a file
/// extension or the name of one of its grammars, in any ASCII case.
pub uninterp spec fn syntax_tokens(syntaxes: SyntaxSet) -> Set<Seq<char>>;

/// The names of the themes that a theme set holds.
pub uninterp spec fn theme_names(themes: ThemeSet) -> Set<Seq<char>>;

/// The grammar that a syntax set picks for a language token it knows.
pub uninterp spec fn grammar_of(syntaxes: SyntaxSet, token: Seq<char>) -> SyntaxReference;

/// The grammar that a line highlighter parses with.
pub uninterp spec fn highlighter_grammar(highlighter: HighlightLines) -> SyntaxReference;

/// The names of the themes built into syntect.
pub open spec fn builtin_theme_names() -> Set<Seq<char>> {
    set![
        DEFAULT_THEME@,
        "base16-eighties.dark"@,
        "base16-mocha.dark"@,
        "base16-ocean.light"@,
        "InspiredGitHub"@,
        "Solarized (dark)"@,
        "Solarized (light)"@,
    ]
}

/// The text that a sequence of styled spans covers, span after span.
pub open spec fn span_text<'b>(spans: Seq<(Style, &'b str)>) -> Seq<char>
    decreases spans.len(),
{
    if spans.len() == 0 {
        Seq::empty()
    } else {
        span_text(spans.drop_last()) + spans.last().1@
    }
}

/// Relies on `SyntaxSet::load_defaults_newlines`: the grammars built into
/// syntect, for lines that keep their line ending.
#[verifier::external_body]
pub(crate) fn load_syntaxes() -> SyntaxSet {
    SyntaxSet::load_defaults_newlines()
}

/// Relies on `ThemeSet::load_defaults`, whose documentation lists the keys
/// of the built-in themes.
#[verifier::external_body]
pub(crate) fn load_themes() -> (r: ThemeSet)
    ensures
        theme_names(r) == builtin_theme_names(),
{
    ThemeSet::load_defaults()
}

/// Relies on `ThemeSet::add_from_folder`: it only inserts themes into the
/// set's map, so no name that the set held is lost, whether it fails or not;
/// a failure is handed on as its message.
#[verifier::external_body]
pub(crate) fn add_themes_from(themes: &mut ThemeSet, dir: &PathBuf) -> (r: Result<(), String>)
    ensures
        theme_names(*old(themes)).subset_of(theme_names(*final(themes))),
{
    themes.add_from_folder(dir).map_err(|e| e.to_string())
}

/// Relies on `BTreeMap::remove` on the set's `themes` map: it hands out the
/// theme of that name if there is one, and the set no longer holds the name.
#[verifier::external_body]
pub(crate) fn take_theme(themes: &mut ThemeSet, name: &str) -> (r: Option<Theme>)
    ensures
        r is Some <==> theme_names(*old(themes)).contains(name@),
        theme_names(*final(themes)) == theme_names(*old(themes)).remove(name@),
{
    themes.themes.remove(name)
}

/// Relies on `SyntaxSet::find_syntax_by_token`: a grammar of the set is found
/// exactly for the tokens that the set knows, and the search depends on the
/// set and the token alone.
#[verifier::external_body]
pub(crate) fn find_syntax<'a>(syntaxes: &'a SyntaxSet, token: &str) -> (r: Option<&'a SyntaxReference>)
    ensures
        r is Some <==> syntax_tokens(*syntaxes).contains(token@),
        r is Some ==> *r->Some_0 == grammar_of(*syntaxes, token@),
{
    syntaxes.find_syntax_by_token(token)
}

/// Relies on `HighlightLines::new`: a fresh line highlighter that parses with
/// the given grammar, in the given theme.
#[verifier::external_body]
pub(crate) fn new_highlighter<'a>(syntax: &SyntaxReference, theme: &'a Theme) -> (r: HighlightLines<'a>)
    ensures
        highlighter_grammar(r) == *syntax,
{
    HighlightLines::new(syntax, theme)
}

/// Relies on `HighlightLines::highlight_line`, whose spans come from syntect's
/// `HighlightIterator`: their texts, one after another, make the line. The
/// syntax set must be the one that the highlighter's grammar was found in
/// (syntect's parser resolves the grammar's contexts in it, and may panic
/// otherwise). The grammar stays the same.
#[verifier::external_body]
pub(crate) fn highlight_line<'b>(
    highlighter: &mut HighlightLines,
    line: &'b str,
    syntaxes: &SyntaxSet,
) -> (r: Result<Vec<(Style, &'b str)>, String>)
    requires
        exists|token: Seq<char>|
            syntax_tokens(*syntaxes).contains(token) && highlighter_grammar(*old(highlighter))
                == grammar_of(*syntaxes, token),
    ensures
        r is Ok ==> span_text(r->Ok_0@) == line@,
        highlighter_grammar(*final(highlighter)) == highlighter_grammar(*old(highlighter)),
{
    highlighter.highlight_line(line, syntaxes).map_err(|e| e.to_string())
}

/// Opening of a span style that sets a background colour.
pub const BACKGROUND_STYLE: &'static str = "style=\"background-color:";

/// Relies on `syntect::html::styled_line_to_highlighted_html`: each span opens
/// with `<span style="` unless it joins the one before, and the last is closed
/// with `</span>`; no span gives no text. A background colour is written
/// first in a span's style, and only when asked for; the spans' text is
/// escaped, so it holds no `"`.
#[verifier::external_body]
pub(crate) fn spans_to_html(spans: &Vec<(Style, &str)>, background: bool) -> (r: Result<String, String>)
    ensures
        r is Ok && spans@.len() > 0 ==> is_span_markup(r->Ok_0@),
        r is Ok && spans@.len() == 0 ==> r->Ok_0@.len() == 0,
        r is Ok && !background ==> !holds_text(r->Ok_0@, BACKGROUND_STYLE@),
{
    let bg = if background { IncludeBackground::Yes } else { IncludeBackground::No };
    syntect::html::styled_line_to_highlighted_html(spans, bg).map_err(|e| e.to_string())
}

/// Start of the tag that opens a highlighted code block.
pub const PRE_STYLE_OPEN: &'static str = "<pre style=\"background-color:#";

/// End of the tag that opens a highlighted code block.
pub const PRE_STYLE_CLOSE: &'static str = ";\">\n";

/// Relies on `syntect::html::start_highlighted_html_snippet`: the `<pre>` tag
/// that opens a code block in the theme's background colour, written as
/// `<pre style="background-color:#rrggbb;">` and a line break.
#[verifier::external_body]
pub(crate) fn code_block_open(theme: &Theme) -> (r: String)
    ensures
        opens_pre(r@),
        r@.len() == PRE_STYLE_OPEN@.len() + 6 + PRE_STYLE_CLOSE@.len(),
        r@.subrange(0, PRE_STYLE_OPEN@.len() as int) == PRE_STYLE_OPEN@,
        r@.subrange(r@.len() - PRE_STYLE_CLOSE@.len(), r@.len() as int) == PRE_STYLE_CLOSE@,
{
    syntect::html::start_highlighted_html_snippet(theme).0
}

} // verus!
