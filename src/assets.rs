//! The stylesheet and script inlined into every deck, and their minification.
use vstd::prelude::*;

verus! {

/// The built-in stylesheet: one slide fills the window at a time.
pub const BUILTIN_STYLE: &'static str = r#"
html, body {
    margin: 0;
    padding: 0;
    height: 100%;
    font-family: "Helvetica Neue", Helvetica, Arial, sans-serif;
    background: #1d1f21;
}

.slide {
    display: none;
    box-sizing: border-box;
    width: 100vw;
    height: 100vh;
    padding: 2em;
    background: #ffffff;
    color: #222222;
}

.slide.current {
    display: flex;
    align-items: center;
    justify-content: center;
}

.content {
    max-width: 80%;
    font-size: 2em;
}

.content pre {
    padding: 0.5em;
    font-size: 0.7em;
    overflow: auto;
}

.content img {
    max-width: 100%;
}

.content table {
    border-collapse: collapse;
}

.content th, .content td {
    padding: 0.2em 0.6em;
    border: 1px solid #cccccc;
}
"#;

/// The built-in script: arrow keys move between slides, the position is kept
/// in the address, and with `?watch=true` the page reloads when told to.
pub const BUILTIN_SCRIPT: &'static str = r#"
(function () {
    var slides = [];
    var current = 0;

    function show(index) {
        if (slides.length === 0) {
            return;
        }
        index = Math.max(0, Math.min(slides.length - 1, index));
        slides[current].classList.remove("current");
        current = index;
        slides[current].classList.add("current");
        window.location.hash = String(current);
    }

    document.addEventListener("DOMContentLoaded", function () {
        slides = document.querySelectorAll(".slide");
        var start = parseInt(window.location.hash.slice(1), 10);
        if (slides.length > 0) {
            slides[0].classList.add("current");
        }
        show(isNaN(start) ? 0 : start);

        document.addEventListener("keydown", function (event) {
            if (event.key === "ArrowRight" || event.key === "PageDown" || event.key === " ") {
                show(current + 1);
            } else if (event.key === "ArrowLeft" || event.key === "PageUp") {
                show(current - 1);
            } else if (event.key === "Home") {
                show(0);
            } else if (event.key === "End") {
                show(slides.length - 1);
            }
        });

        if (window.location.search.indexOf("watch=true") !== -1) {
            var socket = new WebSocket("ws://" + window.location.host + "/ws");
            socket.onmessage = function (message) {
                var data = JSON.parse(message.data);
                if (data.type === "reload") {
                    window.location.reload();
                }
            };
        }
    });
})();
"#;

/// The text of an optional custom asset (nothing when there is none).
pub open spec fn custom_text(custom: Option<String>) -> Seq<char> {
    match custom {
        Some(c) => c@,
        None => Seq::empty(),
    }
}

/// A built-in asset followed by the custom one, if any.
pub open spec fn asset_source(builtin: Seq<char>, custom: Option<String>) -> Seq<char> {
    builtin + custom_text(custom)
}

/// The minified form of a stylesheet, or nothing where the minifier rejects it.
pub uninterp spec fn css_minified(source: Seq<char>) -> Option<Seq<char>>;

/// The minified form of a script.
pub uninterp spec fn js_minified(source: Seq<char>) -> Seq<char>;

/// Relies on `minifier::css::minify`: a function of the text, which either
/// gives the minified text or fails with a description.
#[verifier::external_body]
pub(crate) fn minify_css(source: &str) -> (r: Result<String, &'static str>)
    ensures
        match r {
            Ok(m) => css_minified(source@) == Some(m@),
            Err(_) => css_minified(source@) is None,
        },
{
    minifier::css::minify(source).map(|m| m.to_string())
}

/// A block comment opens at `i`: the characters there are `/*`.
pub open spec fn opens_comment_at(s: Seq<char>, i: int) -> bool {
    0 <= i && i + 1 < s.len() && s[i] == '/' && s[i + 1] == '*'
}

/// A block comment closes at `j`: the characters there are `*/`.
pub open spec fn closes_comment_at(s: Seq<char>, j: int) -> bool {
    0 <= j && j + 1 < s.len() && s[j] == '*' && s[j + 1] == '/'
}

/// Every `/*` of the text is followed, past its own `*`, by a `*/`.
pub open spec fn comments_closed(s: Seq<char>) -> bool {
    forall|i: int|
        #[trigger] opens_comment_at(s, i) ==> exists|j: int|
            j >= i + 2 && #[trigger] closes_comment_at(s, j)
}

/// An empty block comment on a line of its own; ending a script with it
/// closes any comment that the script left open.
pub const SCRIPT_END: &'static str = "\n/**/";

/// Relies on `minifier::js::minify`: a function of the text that cannot fail.
/// Its tokenizer slices past the end of a block comment that is never closed
/// (`get_comment`), so such text is left out.
#[verifier::external_body]
pub(crate) fn minify_js(source: &str) -> (r: String)
    requires
        comments_closed(source@),
    ensures
        r@ == js_minified(source@),
{
    minifier::js::minify(source).to_string()
}

/// Joins a built-in asset and the custom one: the custom text comes after,
/// verbatim, so that its rules win on equal specificity.
pub fn join_asset(builtin: &str, custom: &Option<String>) -> (r: String)
    ensures
        r@ == asset_source(builtin@, *custom),
{
    let mut text = builtin.to_owned();
    match custom {
        Some(c) => text.append(c.as_str()),
        None => {},
    }
    text
}

/// The script text handed to the minifier: the built-in script, the custom
/// one, then an empty comment that closes any comment left open.
pub open spec fn script_text(custom: Option<String>) -> Seq<char> {
    asset_source(BUILTIN_SCRIPT@, custom) + SCRIPT_END@
}

/// Joins the built-in script and the custom one, and ends the text with
/// `SCRIPT_END`.
pub fn join_script(custom: &Option<String>) -> (r: String)
    ensures
        r@ == script_text(*custom),
        comments_closed(r@),
{
    let mut text = join_asset(BUILTIN_SCRIPT, custom);
    let ghost joined = text@;
    text.append(SCRIPT_END);
    proof {
        lemma_end_closes_comments(joined);
    }
    text
}

/// Any text followed by `SCRIPT_END` has all its block comments closed.
proof fn lemma_end_closes_comments(s: Seq<char>)
    ensures
        comments_closed(s + SCRIPT_END@),
{
    reveal_strlit("\n/**/");
    let t = s + SCRIPT_END@;
    let n = s.len() as int;
    assert(t[n + 1] == '/' && t[n + 2] == '*' && t[n + 3] == '*' && t[n + 4] == '/');
    assert(t.len() == n + 5);
    assert forall|i: int| #[trigger] opens_comment_at(t, i) implies exists|j: int|
        j >= i + 2 && #[trigger] closes_comment_at(t, j) by {
        assert(i <= n + 1);
        assert(closes_comment_at(t, n + 3));
    }
}

/// A custom asset reaches the minifier verbatim, after the whole built-in
/// asset; the minified text is that of this joined source.
pub proof fn lemma_custom_follows_builtin(builtin: Seq<char>, custom: String)
    ensures
        asset_source(builtin, Some(custom)).subrange(0, builtin.len() as int) == builtin,
        asset_source(builtin, Some(custom)).subrange(
            builtin.len() as int,
            asset_source(builtin, Some(custom)).len() as int,
        ) == custom@,
{
    let joined = asset_source(builtin, Some(custom));
    assert(joined.subrange(0, builtin.len() as int) =~= builtin);
    assert(joined.subrange(builtin.len() as int, joined.len() as int) =~= custom@);
}

} // verus!
