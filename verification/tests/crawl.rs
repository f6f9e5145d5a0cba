use coap_lite::link_format::LinkFormatParser;
use jelly::command::commands::spider::anchor_can_be_unquoted;
use jelly::command::commands::spider::find_local_target;
use jelly::command::commands::spider::resolve_link;
use jelly::command::commands::spider::unquote_would_panic;
use jelly::command::commands::spider::Link;
use jelly::command::commands::spider::LinkError;
use jelly::command::commands::spider::OnceQueue;
use jelly::command::commands::spider::Spider;
use jelly::command::request::Method;
use jelly::datatypes::coap_log::CoapMessage;
use jelly::datatypes::coap_log::CodeClass;
use jelly::datatypes::coap_log::ContentFormatInfo;

/// The links of a link-format document, as coap-lite parses them, with each
/// attribute's value as written.
fn links(text: &str) -> Vec<Option<Link>> {
    LinkFormatParser::new(text)
        .map(|item| {
            item.ok().map(|(target, attributes)| Link {
                target: target.to_owned(),
                attributes: attributes.map(|(k, v)| (k.to_owned(), v.into_raw_str().to_owned())).collect(),
            })
        })
        .collect()
}

fn answer(error: bool, format: Option<u16>, payload: &str) -> CoapMessage {
    CoapMessage {
        code: if error { 132 } else { 69 },
        class: CodeClass::Response,
        code_name: if error { "NotFound".to_string() } else { "Content".to_string() },
        status_is_error: error,
        token: vec![1],
        uri_path: None,
        content_format: format.map(|number| ContentFormatInfo { number, name: "ApplicationLinkFormat".to_string() }),
        payload: payload.as_bytes().to_vec(),
    }
}

#[test]
fn test_find_local_target() {
    let parsed = links("<a>,<b>;anchor=\"/c\",<remote>;anchor=\"remote:///\"");
    assert_eq!(find_local_target(&parsed[0]).unwrap(), "a");
    assert_eq!(find_local_target(&parsed[1]).unwrap(), "b");
    assert!(find_local_target(&parsed[2]).is_err());
}

#[test]
fn local_targets_keep_paths_and_queries_and_refuse_other_hosts() {
    let parsed = links("</sensors/temp?unit=c>,<coap://other/x>,</deep/x>;anchor=\"/a/b/\"");
    assert_eq!(find_local_target(&parsed[0]).unwrap(), "sensors/temp?unit=c");
    assert_eq!(find_local_target(&parsed[1]), Err(LinkError::NotLocal));
    assert_eq!(find_local_target(&parsed[2]).unwrap(), "deep/x");
    assert_eq!(find_local_target(&None), Err(LinkError::Malformed));
}

#[test]
fn once_queue_takes_each_value_once() {
    let mut q = OnceQueue::new();
    assert!(q.push("a"));
    assert!(q.push("b"));
    assert!(!q.push("a"));
    assert_eq!(q.pop().as_deref(), Some("b"));
    assert!(!q.push("b"));
    assert_eq!(q.pop().as_deref(), Some("a"));
    assert_eq!(q.pop(), None);
    assert!(!q.push("a"));
    assert_eq!(q.pop(), None);
}

#[test]
fn spider_refuses_arguments() {
    match Spider::parse("spider deep") {
        Err(e) => assert_eq!(e, "Error executing command: spider takes no arguments"),
        Ok(_) => panic!("arguments accepted"),
    }
}

#[test]
fn spider_crawls_each_local_resource_once() {
    let cmd = Spider::cmd();
    assert_eq!(cmd.cmd, "spider");
    let mut s = Spider::parse("spider").ok().expect("a crawl");
    assert!(s.want_display());
    let mut out = String::new();
    s.display(&mut out);
    assert_eq!(out, "[spider] GETting \".well-known/core\", 0 remaining.\n");
    assert!(!s.want_display());
    let first = s.init();
    assert!(first.method == Method::Get);
    assert_eq!(first.path, ".well-known/core");

    let next = s
        .handle(&answer(false, Some(40), "</a>,</b>,</a>,<http://elsewhere/c>,</.well-known/core>"))
        .expect("a GET of b");
    assert_eq!(next.path, "b");
    let mut out = String::new();
    s.display(&mut out);
    assert_eq!(
        out,
        "[spider] Found 4 links, thereof 2 new.\n[spider] GETting \"b\", 1 remaining.\n"
    );

    // an error answer and a plain-text answer add nothing
    let next = s.handle(&answer(true, Some(40), "</z>")).expect("a GET of a");
    assert_eq!(next.path, "a");
    assert!(s.handle(&answer(false, None, "</z>")).is_none());
    assert!(!s.is_finished());
    let mut out = String::new();
    s.display(&mut out);
    assert_eq!(out, "[spider] GETting \"a\", 0 remaining.\n");
    assert!(s.handle(&answer(false, Some(40), "</y>")).is_none());
    assert!(!s.want_display());
}

#[test]
fn anchors_are_unquoted_and_unescaped() {
    let parsed = links("</x>;anchor=\"/a\\/b/\",</y>;anchor=/d/,</z>;anchor=\"/e/\";ct=\"");
    assert_eq!(parsed[0].as_ref().unwrap().attributes[0].1, "\"/a\\/b/\"");
    assert_eq!(find_local_target(&parsed[0]).unwrap(), "x");
    assert_eq!(find_local_target(&parsed[1]).unwrap(), "y");
    // a value other than the anchor is never unquoted, even a lone quote
    assert!(anchor_can_be_unquoted(&parsed[2]));
    assert_eq!(find_local_target(&parsed[2]).unwrap(), "z");
    // an escaped anchor on another host makes the link foreign
    let parsed = links("</w>;anchor=\"coap:\\/\\/other/\"");
    assert_eq!(find_local_target(&parsed[0]), Err(LinkError::NotLocal));
}

#[test]
fn anchors_that_cannot_be_unquoted_are_recognised() {
    assert!(unquote_would_panic("\""));
    assert!(unquote_would_panic("\"/caf\u{e9}"));
    assert!(!unquote_would_panic("\"/a\\\u{e9}"));
    assert!(!unquote_would_panic("/a"));
    assert!(!unquote_would_panic("\"/a\""));
    assert!(!unquote_would_panic(""));
    let parsed = links("</x>;anchor=\"");
    assert!(!anchor_can_be_unquoted(&parsed[0]));
}

#[test]
fn a_link_resolves_by_what_the_url_library_made_of_it() {
    let b = Some("https://slipmux/".to_string());
    let h = Some("https://slipmux/a".to_string());
    assert_eq!(resolve_link(None, h.clone(), true, Some("a".to_string())), Err(LinkError::BadReference));
    assert_eq!(resolve_link(b.clone(), None, true, Some("a".to_string())), Err(LinkError::BadReference));
    assert_eq!(resolve_link(b.clone(), h.clone(), false, Some("a".to_string())), Err(LinkError::NotLocal));
    assert_eq!(resolve_link(b.clone(), h.clone(), true, None), Err(LinkError::NotLocal));
    assert_eq!(resolve_link(b, h, true, Some("a".to_string())), Ok("a".to_string()));
}

#[test]
fn the_crawl_skips_an_anchor_that_cannot_be_unquoted() {
    let mut s = Spider::parse("spider").ok().expect("a crawl");
    let mut first = String::new();
    s.display(&mut first);
    let _ = s.init();
    let next = s.handle(&answer(false, Some(40), "</b>,</x>;anchor=\""));
    let mut out = String::new();
    s.display(&mut out);
    assert!(out.starts_with("[spider] Found 1 links, thereof 1 new.\n"), "{out}");
    assert_eq!(next.expect("a GET of b").path, "b");
}
