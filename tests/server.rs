use deck::error::Error;
use deck::registry::Registry;
use deck::server::{
    decimal_text, on_file_event, response_for, slides_document, slides_url, watch_targets,
    ERROR_PAGE, RELOAD_MESSAGE, STATUS_ERROR, STATUS_OK,
};
use std::path::PathBuf;
use tokio::sync::mpsc::unbounded_channel;

const RELOAD: &str = "{\"type\":\"reload\"}";

#[test]
fn reload_message_text() {
    assert_eq!(RELOAD_MESSAGE, RELOAD);
}

#[test]
fn outbox_pairs_ids_with_the_message() {
    let mut registry = Registry::new();
    let (a, _ra) = unbounded_channel::<String>();
    let (b, _rb) = unbounded_channel::<String>();
    registry.register(a).unwrap();
    registry.register(b).unwrap();
    assert_eq!(
        registry.outbox(&RELOAD.to_string()),
        vec![(1, RELOAD.to_string()), (2, RELOAD.to_string())]
    );
}

#[test]
fn each_modification_sends_again() {
    let mut registry = Registry::new();
    let (a, mut ra) = unbounded_channel::<String>();
    registry.register(a).unwrap();
    on_file_event(&registry, true);
    on_file_event(&registry, true);
    assert_eq!(ra.try_recv().unwrap(), RELOAD);
    assert_eq!(ra.try_recv().unwrap(), RELOAD);
    assert!(ra.try_recv().is_err());
}

#[test]
fn ids_ascend_from_one() {
    let mut registry = Registry::new();
    let (a, _ra) = unbounded_channel::<String>();
    let (b, _rb) = unbounded_channel::<String>();
    assert_eq!(registry.register(a), Some(1));
    assert_eq!(registry.register(b), Some(2));
    assert_eq!(registry.registered_ids(), vec![1, 2]);
}

#[test]
fn ids_are_not_reused() {
    let mut registry = Registry::new();
    let (a, _ra) = unbounded_channel::<String>();
    let (b, _rb) = unbounded_channel::<String>();
    let first = registry.register(a).unwrap();
    registry.unregister(first);
    let second = registry.register(b).unwrap();
    assert!(second > first);
    assert_eq!(registry.registered_ids(), vec![second]);
}

#[test]
fn unregistered_connection_is_not_reached() {
    let mut registry = Registry::new();
    let (a, mut ra) = unbounded_channel::<String>();
    let (b, mut rb) = unbounded_channel::<String>();
    let first = registry.register(a).unwrap();
    let second = registry.register(b).unwrap();
    registry.unregister(first);
    let outcomes = registry.broadcast(&RELOAD.to_string());
    assert_eq!(outcomes, vec![(second, true)]);
    assert!(ra.try_recv().is_err());
    assert_eq!(rb.try_recv().unwrap(), RELOAD);
}

#[test]
fn unregistering_twice_is_harmless() {
    let mut registry = Registry::new();
    let (a, _ra) = unbounded_channel::<String>();
    let id = registry.register(a).unwrap();
    registry.unregister(id);
    registry.unregister(id);
    registry.unregister(77);
    assert!(registry.registered_ids().is_empty());
    assert!(registry.broadcast(&RELOAD.to_string()).is_empty());
}

#[test]
fn closed_channel_is_reported() {
    let mut registry = Registry::new();
    let (a, ra) = unbounded_channel::<String>();
    let (b, mut rb) = unbounded_channel::<String>();
    let first = registry.register(a).unwrap();
    let second = registry.register(b).unwrap();
    drop(ra);
    let outcomes = registry.broadcast(&RELOAD.to_string());
    assert_eq!(outcomes, vec![(first, false), (second, true)]);
    assert_eq!(rb.try_recv().unwrap(), RELOAD);
}

#[test]
fn modification_sends_one_reload() {
    let mut registry = Registry::new();
    let (a, mut ra) = unbounded_channel::<String>();
    let id = registry.register(a).unwrap();
    let outcomes = on_file_event(&registry, true);
    assert_eq!(outcomes, vec![(id, true)]);
    assert_eq!(ra.try_recv().unwrap(), RELOAD);
    assert!(ra.try_recv().is_err());
}

#[test]
fn other_file_events_send_nothing() {
    let mut registry = Registry::new();
    let (a, mut ra) = unbounded_channel::<String>();
    registry.register(a).unwrap();
    assert!(on_file_event(&registry, false).is_empty());
    assert!(ra.try_recv().is_err());
}

#[test]
fn deleted_input_gives_error_page() {
    let read: Result<String, Error> = Err(Error::Io("No such file or directory".to_string()));
    let page = response_for(&read);
    assert_eq!(page.status, STATUS_ERROR);
    assert_eq!(page.status, 500);
    assert_eq!(page.body, ERROR_PAGE);
}

#[test]
fn render_failure_gives_error_page() {
    let renderer = deck::html::Renderer::try_new(deck::html::Options::default()).unwrap();
    let result = slides_document(&renderer, "x".to_string(), Some("}".to_string()), None);
    assert!(matches!(result, Err(Error::Minification(_))));
    let page = response_for(&result);
    assert_eq!(page.status, 500);
    assert!(!page.body.contains("Too much"));
}

#[test]
fn slides_page_is_the_document() {
    let renderer = deck::html::Renderer::try_new(deck::html::Options::default()).unwrap();
    let result = slides_document(&renderer, "# A\n\n---\n\n# B".to_string(), None, None);
    let page = response_for(&result);
    assert_eq!(page.status, STATUS_OK);
    assert!(page.body.starts_with("<html>\n<head>\n<meta charset=\"utf-8\">\n<style>\n"));
    assert!(page.body.contains("<h1>A</h1>"));
    assert!(page.body.ends_with("</div>\n</div>\n</body>\n</html>\n"));
}

#[test]
fn urls_of_the_slides() {
    assert_eq!(slides_url(8000, false), "127.0.0.1:8000/slides");
    assert_eq!(slides_url(8000, true), "127.0.0.1:8000/slides?watch=true");
    assert_eq!(slides_url(0, false), "127.0.0.1:0/slides");
    assert_eq!(slides_url(65535, true), "127.0.0.1:65535/slides?watch=true");
}

#[test]
fn decimal_numbers() {
    assert_eq!(decimal_text(0), "0");
    assert_eq!(decimal_text(7), "7");
    assert_eq!(decimal_text(10), "10");
    assert_eq!(decimal_text(409), "409");
    assert_eq!(decimal_text(u16::MAX), "65535");
}

#[test]
fn watched_files() {
    let input = PathBuf::from("talk.md");
    assert_eq!(watch_targets(input.clone(), None, None), vec![input.clone()]);
    assert_eq!(
        watch_targets(input.clone(), Some(PathBuf::from("a.css")), Some(PathBuf::from("a.js"))),
        vec![input.clone(), PathBuf::from("a.css"), PathBuf::from("a.js")]
    );
    assert_eq!(
        watch_targets(input.clone(), None, Some(PathBuf::from("a.js"))),
        vec![input, PathBuf::from("a.js")]
    );
}

#[test]
fn joined_assets() {
    assert_eq!(deck::assets::join_asset("a{}", &Some("b{}".to_string())), "a{}b{}");
    assert_eq!(deck::assets::join_asset("a{}", &None), "a{}");
}
