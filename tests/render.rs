use deck::error::Error;
use deck::html::{highlighted_or_plain, Options, Output, Renderer, SLIDE_CLOSE, SLIDE_OPEN};
use deck::markdown::{MdEvent, CODE_END, SLIDE_BREAK};

fn default_renderer() -> Renderer {
    Renderer::try_new(Options::default()).expect("Failed to create renderer")
}

fn count(haystack: &str, needle: &str) -> usize {
    haystack.matches(needle).count()
}

#[test]
fn test_render() {
    let input = r#"
# Slide 1

This is a **test**

---

# Slide 2

And it should work"#;
    let renderer = Renderer::try_new(Options::default()).expect("Failed to create renderer");
    let output = renderer
        .render(input.into(), None, None)
        .expect("Failed to render");
    assert_eq!(
        r#"<div class="slide">
<div class="content">
<h1>Slide 1</h1>
<p>This is a <strong>test</strong></p>
</div>
</div>
<div class="slide">
<div class="content">
<h1>Slide 2</h1>
<p>And it should work</p>
</div>
</div>"#,
        output.body
    );
}

#[test]
fn two_headings_make_two_slides() {
    let output = default_renderer()
        .render("# A\n\n---\n\n# B".to_string(), None, None)
        .expect("Failed to render");
    assert_eq!(
        output.body,
        "<div class=\"slide\">\n<div class=\"content\">\n<h1>A</h1>\n</div>\n</div>\n\
         <div class=\"slide\">\n<div class=\"content\">\n<h1>B</h1>\n</div>\n</div>"
    );
    assert_eq!(count(&output.body, "<div class=\"slide\">"), 2);
    let first = output.body.find("<h1>A</h1>").unwrap();
    let second = output.body.find("<h1>B</h1>").unwrap();
    let boundary = output.body.find(SLIDE_BREAK).unwrap();
    assert!(first < boundary && boundary < second);
}

#[test]
fn breaks_give_one_more_slide() {
    let input = "one\n\n---\n\ntwo\n\n***\n\n---\n\nfour".to_string();
    let output = default_renderer().render(input, None, None).unwrap();
    assert_eq!(count(&output.body, "<div class=\"slide\">"), 4);
    assert_eq!(count(&output.body, "<div class=\"content\">"), 4);
    assert_eq!(count(&output.body, "</div>"), 8);
    assert!(output.body.starts_with(SLIDE_OPEN));
    assert!(output.body.ends_with(SLIDE_CLOSE));
    // consecutive breaks make an empty slide
    assert!(output.body.contains(&format!("{}{}", SLIDE_BREAK, SLIDE_BREAK)));
}

#[test]
fn no_break_gives_one_slide() {
    let output = default_renderer().render(String::new(), None, None).unwrap();
    assert_eq!(output.body, format!("{}{}", SLIDE_OPEN, SLIDE_CLOSE));
}

#[test]
fn known_language_is_highlighted() {
    let input = "```rust\nfn main() {}\nlet x = 1;\n```\n".to_string();
    let output = default_renderer().render(input, None, None).unwrap();
    assert!(output.body.contains("<pre style=\"background-color:#"));
    assert!(output.body.contains("<span style=\""));
    assert!(!output.body.contains("<code"));
    assert!(output.body.contains("</pre>"));
}

#[test]
fn unknown_language_is_left_plain() {
    let input = "```nosuchlanguage\nlet x = 1 < 2;\n```\n".to_string();
    let output = default_renderer().render(input, None, None).unwrap();
    assert!(output.body.contains("<pre style=\"background-color:#"));
    assert!(output.body.contains("let x = 1 &lt; 2;\n</pre>"));
    assert!(!output.body.contains("<span"));
}

#[test]
fn rendering_twice_is_identical() {
    let renderer = default_renderer();
    let input = "# T\n\n```rust\nfn f() -> u8 { 1 }\n```\n\n---\n\n| a | b |\n|---|---|\n| 1 | 2 |\n";
    let css = Some("h1 { color: red; }".to_string());
    let js = Some("var answer = 42;".to_string());
    let a = renderer.render(input.to_string(), css.clone(), js.clone()).unwrap();
    let b = renderer.render(input.to_string(), css, js).unwrap();
    assert_eq!(a.to_html(), b.to_html());
    assert_eq!(a.body, b.body);
    assert!(a.body.contains("<table>"));
}

#[test]
fn custom_css_follows_builtin() {
    let renderer = default_renderer();
    let plain = renderer.render("x".to_string(), None, None).unwrap();
    let custom = renderer
        .render("x".to_string(), Some(".custom > p { color: red; }".to_string()), None)
        .unwrap();
    assert!(custom.style.ends_with(".custom>p{color:red;}"));
    assert!(custom.style.starts_with(plain.style.trim_end()));
    assert!(plain.style.len() < custom.style.len());
    assert!(!plain.style.contains(".custom"));
    // minified: no line breaks left
    assert!(!plain.style.contains('\n'));
}

#[test]
fn custom_js_follows_builtin() {
    let renderer = default_renderer();
    let plain = renderer.render("x".to_string(), None, None).unwrap();
    let custom = renderer
        .render("x".to_string(), None, Some("var customValue = 42;".to_string()))
        .unwrap();
    let at = custom.script.find("customValue").unwrap();
    assert!(custom.script.contains("DOMContentLoaded"));
    assert!(custom.script.find("DOMContentLoaded").unwrap() < at);
    assert!(!plain.script.contains("customValue"));
    assert!(plain.script.len() < deck::assets::BUILTIN_SCRIPT.len());
}

#[test]
fn bad_css_is_a_minification_error() {
    let result = default_renderer().render("x".to_string(), Some("}".to_string()), None);
    match result {
        Err(Error::Minification(message)) => assert_eq!(message, "Too much '}'"),
        _ => panic!("expected a minification error"),
    }
}

#[test]
fn unknown_theme_is_not_found() {
    let options = Options {
        title: None,
        theme: Some("no-such-theme".to_string()),
        theme_dirs: Vec::new(),
    };
    assert!(matches!(Renderer::try_new(options), Err(Error::ThemeNotFound)));
}

#[test]
fn named_builtin_theme_is_found() {
    let options = Options {
        title: Some("Talk".to_string()),
        theme: Some("InspiredGitHub".to_string()),
        theme_dirs: Vec::new(),
    };
    let renderer = Renderer::try_new(options).unwrap();
    let output = renderer.render("x".to_string(), None, None).unwrap();
    assert_eq!(output.title, Some("Talk".to_string()));
}

#[test]
fn missing_theme_dir_is_a_loading_error() {
    let options = Options {
        title: None,
        theme: None,
        theme_dirs: vec![std::path::PathBuf::from("/no/such/theme/dir")],
    };
    assert!(matches!(Renderer::try_new(options), Err(Error::Syntect(_))));
}

#[test]
fn theme_set_without_the_theme() {
    let syntaxes = syntect::parsing::SyntaxSet::load_defaults_newlines();
    let themes = syntect::highlighting::ThemeSet::new();
    let result = Renderer::with_theme_set(syntaxes, themes, None, None);
    assert!(matches!(result, Err(Error::ThemeNotFound)));
}

#[test]
fn theme_set_with_the_default_theme() {
    let syntaxes = syntect::parsing::SyntaxSet::load_defaults_newlines();
    let themes = syntect::highlighting::ThemeSet::load_defaults();
    let renderer = Renderer::with_theme_set(syntaxes, themes, None, Some("T".to_string()))
        .expect("default theme");
    let output = renderer.render("# x".to_string(), None, None).unwrap();
    assert_eq!(output.title, Some("T".to_string()));
}

#[test]
fn default_options() {
    let options = Options::default();
    assert!(options.title.is_none());
    assert!(options.theme.is_none());
    assert!(options.theme_dirs.is_empty());
}

#[test]
fn document_layout() {
    let output = Output {
        title: Some("Deck".to_string()),
        style: "a{}".to_string(),
        script: "f();".to_string(),
        body: "<p>x</p>".to_string(),
    };
    assert_eq!(
        output.to_html(),
        "<html>\n<head>\n<meta charset=\"utf-8\">\n<title>Deck</title>\n<style>\na{}\n</style>\n\
         <script type=\"text/javascript\">\nf();\n</script>\n</head>\n<body>\n<p>x</p>\n</body>\n</html>\n"
    );
    let untitled = Output { title: None, ..output };
    assert!(!untitled.to_html().contains("<title>"));
}

#[test]
fn highlighting_outcome() {
    match highlighted_or_plain("x < y".to_string(), Ok("<span style=\"color:#fff;\">x</span>".to_string())) {
        MdEvent::Html(h) => assert_eq!(h, "<span style=\"color:#fff;\">x</span>"),
        _ => panic!("a highlighted line becomes its markup"),
    }
    match highlighted_or_plain("x < y".to_string(), Err("no context".to_string())) {
        MdEvent::Text(t) => assert_eq!(t, "x < y"),
        _ => panic!("a line that cannot be highlighted stays text"),
    }
}

#[test]
fn known_block_through_slide_events() {
    let renderer = default_renderer();
    let events = vec![
        MdEvent::CodeStart("rust".to_string()),
        MdEvent::Text("let x = 1;\n".to_string()),
        MdEvent::CodeEnd,
        MdEvent::Text("after".to_string()),
    ];
    let out = renderer.slide_events(events);
    assert_eq!(out.len(), 4);
    assert!(matches!(&out[0], MdEvent::Html(h) if h.starts_with("<pre style=\"background-color:#")));
    assert!(matches!(&out[1], MdEvent::Html(h) if h.starts_with("<span style=\"") && h.ends_with("</span>") && !h.contains("background-color")));
    assert!(matches!(&out[2], MdEvent::Html(h) if h == CODE_END));
    assert!(matches!(&out[3], MdEvent::Text(t) if t == "after"));
}

#[test]
fn slide_events_rewrite_in_order() {
    let renderer = default_renderer();
    let events = vec![
        MdEvent::Text("a".to_string()),
        MdEvent::Rule,
        MdEvent::CodeStart("nosuchlanguage".to_string()),
        MdEvent::Text("b".to_string()),
        MdEvent::CodeEnd,
    ];
    let out = renderer.slide_events(events);
    assert_eq!(out.len(), 5);
    assert!(matches!(&out[0], MdEvent::Text(t) if t == "a"));
    assert!(matches!(&out[1], MdEvent::Html(h) if h == SLIDE_BREAK));
    assert!(matches!(&out[2], MdEvent::Html(h) if h.starts_with("<pre")));
    assert!(matches!(&out[3], MdEvent::Text(t) if t == "b"));
    assert!(matches!(&out[4], MdEvent::Html(h) if h == CODE_END));
}

#[test]
fn error_messages() {
    assert_eq!(Error::ThemeNotFound.message(), "Theme not found");
    assert_eq!(Error::Minification("Unclosed string").message(), "Unclosed string");
    assert_eq!(Error::Io("gone".to_string()).message(), "gone");
}

#[test]
fn script_ending_in_an_open_comment() {
    let renderer = default_renderer();
    let output = renderer
        .render("x".to_string(), None, Some("var kept = 1; /*".to_string()))
        .expect("a custom script cannot make rendering fail");
    assert!(output.script.contains("kept"));
    let output = renderer
        .render("x".to_string(), None, Some("/* caf\u{e9}".to_string()))
        .expect("a custom script cannot make rendering fail");
    assert!(output.script.contains("DOMContentLoaded"));
}

#[test]
fn every_builtin_theme_is_found() {
    for theme in [
        "base16-ocean.dark",
        "base16-eighties.dark",
        "base16-mocha.dark",
        "base16-ocean.light",
        "InspiredGitHub",
        "Solarized (dark)",
        "Solarized (light)",
    ] {
        let options = Options {
            title: None,
            theme: Some(theme.to_string()),
            theme_dirs: Vec::new(),
        };
        assert!(Renderer::try_new(options).is_ok(), "{}", theme);
    }
}

#[test]
fn highlighted_spans_have_no_background() {
    let input = "```rust\nfn main() { let s = \"background\"; }\n```\n".to_string();
    let output = default_renderer().render(input, None, None).unwrap();
    assert!(output.body.contains("<span style=\""));
    assert!(!output.body.contains("<span style=\"background-color"));
    assert_eq!(count(&output.body, "background-color"), 1);
}
