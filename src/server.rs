//! The decisions of the live preview server: what it watches, what it
//! answers on the slides endpoint, and what a file change sets off.
use crate::assets::css_minified;
use crate::error::Error;
use crate::html::{Output, Renderer};
use crate::registry::Registry;
use std::path::PathBuf;
use vstd::prelude::*;

verus! {

/// How a preview server is started.
#[derive(Debug)]
pub struct Config {
    pub port: u16,
    pub watch: bool,
    pub input: PathBuf,
    pub theme: Option<String>,
    pub theme_dirs: Vec<PathBuf>,
    pub css: Option<PathBuf>,
    pub js: Option<PathBuf>,
}

/// The paths of an optional one, as a sequence of none or one.
pub open spec fn optional_path(path: Option<PathBuf>) -> Seq<PathBuf> {
    match path {
        Some(p) => seq![p],
        None => Seq::empty(),
    }
}

/// The files that watch mode follows: the input document, then the custom
/// stylesheet and script when there are any.
pub fn watch_targets(input: PathBuf, css: Option<PathBuf>, js: Option<PathBuf>) -> (r: Vec<
    PathBuf,
>)
    ensures
        r@ == seq![input] + optional_path(css) + optional_path(js),
{
    let ghost css_paths = optional_path(css);
    let ghost js_paths = optional_path(js);
    let mut r: Vec<PathBuf> = Vec::new();
    r.push(input);
    match css {
        Some(p) => r.push(p),
        None => {},
    }
    match js {
        Some(p) => r.push(p),
        None => {},
    }
    assert(r@ =~= seq![input] + css_paths + js_paths);
    r
}

/// The decimal digit for `d` (below ten).
pub open spec fn digit_char(d: nat) -> char {
    if d == 0 { '0' }
    else if d == 1 { '1' }
    else if d == 2 { '2' }
    else if d == 3 { '3' }
    else if d == 4 { '4' }
    else if d == 5 { '5' }
    else if d == 6 { '6' }
    else if d == 7 { '7' }
    else if d == 8 { '8' }
    else { '9' }
}

/// The decimal writing of `n`, without leading zeros.
pub open spec fn decimal(n: nat) -> Seq<char>
    decreases n,
{
    if n < 10 {
        seq![digit_char(n)]
    } else {
        decimal(n / 10) + seq![digit_char(n % 10)]
    }
}

/// The one-character text of the decimal digit `d`.
fn digit_text(d: u16) -> (r: &'static str)
    requires
        d < 10,
    ensures
        r@ == seq![digit_char(d as nat)],
{
    proof {
        reveal_strlit("0");
        reveal_strlit("1");
        reveal_strlit("2");
        reveal_strlit("3");
        reveal_strlit("4");
        reveal_strlit("5");
        reveal_strlit("6");
        reveal_strlit("7");
        reveal_strlit("8");
        reveal_strlit("9");
    }
    let r = if d == 0 { "0" }
    else if d == 1 { "1" }
    else if d == 2 { "2" }
    else if d == 3 { "3" }
    else if d == 4 { "4" }
    else if d == 5 { "5" }
    else if d == 6 { "6" }
    else if d == 7 { "7" }
    else if d == 8 { "8" }
    else { "9" };
    assert(r@ =~= seq![digit_char(d as nat)]);
    r
}

/// Writes `n` in decimal.
pub fn decimal_text(n: u16) -> (r: String)
    ensures
        r@ == decimal(n as nat),
    decreases n,
{
    if n < 10 {
        digit_text(n).to_owned()
    } else {
        let mut r = decimal_text(n / 10);
        r.append(digit_text(n % 10));
        r
    }
}

/// Host part of the address that the server listens on.
pub const LOCAL_HOST: &'static str = "127.0.0.1:";

/// Path of the slides endpoint.
pub const SLIDES_PATH: &'static str = "/slides";

/// Query that asks the page to follow reload signals.
pub const WATCH_QUERY: &'static str = "?watch=true";

/// The address of the slides page for a port, as shown to the user.
pub open spec fn slides_url_spec(port: u16, watch: bool) -> Seq<char> {
    LOCAL_HOST@ + decimal(port as nat) + SLIDES_PATH@ + if watch {
        WATCH_QUERY@
    } else {
        Seq::empty()
    }
}

/// The address of the slides page on the local interface; in watch mode it
/// asks the page to follow reload signals.
pub fn slides_url(port: u16, watch: bool) -> (r: String)
    ensures
        r@ == slides_url_spec(port, watch),
{
    let mut r = LOCAL_HOST.to_owned();
    r.append(decimal_text(port).as_str());
    r.append(SLIDES_PATH);
    if watch {
        r.append(WATCH_QUERY);
    }
    r
}

/// The generic page of a failed request; the cause is only logged.
pub const ERROR_PAGE: &'static str = "
<html>
<body>
    <h1>Deck encountered an expected error</h1>
    <p>Check the server logs</p>
</body>
</html>
";

/// HTTP status of a rendered page.
pub const STATUS_OK: u16 = 200;

/// HTTP status of the generic error page.
pub const STATUS_ERROR: u16 = 500;

/// An HTML answer of the slides endpoint.
pub struct Page {
    pub status: u16,
    pub body: String,
}

/// Renders the current sources of a deck into its HTML document.
pub fn slides_document(
    renderer: &Renderer,
    markdown: String,
    css: Option<String>,
    js: Option<String>,
) -> (r: Result<String, Error>)
    ensures
        match r {
            Ok(doc) => exists|out: Output|
                renderer.renders_to(markdown@, css, js, out) && doc@ == #[trigger] out.document(),
            Err(e) => e is Minification,
        },
        r is Ok <==> css_minified(Renderer::style_source(css)) is Some,
{
    let ghost input = markdown@;
    match renderer.render(markdown, css, js) {
        Ok(out) => {
            let doc = out.to_html();
            assert(renderer.renders_to(input, css, js, out) && doc@ == out.document());
            Ok(doc)
        },
        Err(e) => Err(e),
    }
}

/// The answer for the outcome of a request for the slides: the document with
/// status 200, or the generic error page with status 500 whatever went wrong.
pub fn response_for(result: &Result<String, Error>) -> (r: Page)
    ensures
        match result {
            Ok(doc) => r.status == STATUS_OK && r.body@ == doc@,
            Err(_) => r.status == STATUS_ERROR && r.body@ == ERROR_PAGE@,
        },
{
    match result {
        Ok(doc) => Page { status: STATUS_OK, body: doc.clone() },
        Err(_) => Page { status: STATUS_ERROR, body: ERROR_PAGE.to_owned() },
    }
}

/// The reload signal pushed to the browser: a JSON object whose `type` is
/// `reload`.
pub const RELOAD_MESSAGE: &'static str = "{\"type\":\"reload\"}";

/// Handles one event of the file watcher: a modification of a watched file
/// hands `RELOAD_MESSAGE` to every registered connection (see
/// `Registry::outbox`), whichever file it was; any other event sends nothing.
/// Returns, per registered connection, whether it took the message.
pub fn on_file_event(registry: &Registry, modified: bool) -> (r: Vec<(u64, bool)>)
    ensures
        modified ==> registry.delivers(r@),
        !modified ==> r@.len() == 0,
{
    if modified {
        let reload = RELOAD_MESSAGE.to_owned();
        registry.broadcast(&reload)
    } else {
        Vec::new()
    }
}

} // verus!
