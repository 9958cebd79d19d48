use fanout_gateway::assets::content_type_for;
use fanout_gateway::assets::find_file;
use fanout_gateway::assets::serve_file;
use fanout_gateway::handle_static;
use fanout_gateway::message::header;
use fanout_gateway::StaticFile;

fn file(name: &str, content: &[u8]) -> StaticFile {
    StaticFile { name: String::from(name), content: content.to_vec() }
}

fn table() -> Vec<StaticFile> {
    vec![
        file("eventsource.min.js", b"var a;"),
        file("faye-browser-min.js.map", b"{\"version\":3}"),
        file("json2.js", b"var JSON;"),
        file("notes", b"plain"),
        file("json2.js", b"shadowed"),
    ]
}

#[test]
fn script_is_served_as_javascript() {
    let r = handle_static("/test/static/json2.js", &table());
    assert_eq!(r.status, 200);
    assert_eq!(r.headers, vec![header("Content-Type", "application/javascript")]);
    assert_eq!(r.body, b"var JSON;".to_vec());
}

#[test]
fn source_map_is_served_as_binary() {
    let r = handle_static("/bayeux/static/faye-browser-min.js.map", &table());
    assert_eq!(r.status, 200);
    assert_eq!(r.headers, vec![header("Content-Type", "application/octet-stream")]);
    assert_eq!(r.body, b"{\"version\":3}".to_vec());
}

#[test]
fn other_file_is_served_as_plain_text() {
    let r = handle_static("/test/static/notes", &table());
    assert_eq!(r.status, 200);
    assert_eq!(r.headers, vec![header("Content-Type", "text/plain")]);
    assert_eq!(r.body, b"plain".to_vec());
}

#[test]
fn only_the_last_segment_names_the_file() {
    let r = handle_static("/test/static/deep/er/eventsource.min.js", &table());
    assert_eq!(r.status, 200);
    assert_eq!(r.body, b"var a;".to_vec());
}

#[test]
fn unknown_file_is_not_found_and_has_no_body() {
    for path in
        ["/test/static/missing.js", "/test/static/", "/test/static/JSON2.js", "/test/static/json2"]
    {
        let r = handle_static(path, &table());
        assert_eq!(r.status, 404);
        assert!(r.headers.is_empty());
        assert!(r.body.is_empty());
    }
}

#[test]
fn empty_table_serves_nothing() {
    let r = handle_static("/test/static/json2.js", &Vec::new());
    assert_eq!(r.status, 404);
    assert!(r.headers.is_empty());
    assert!(r.body.is_empty());
}

#[test]
fn content_type_goes_by_the_suffix() {
    assert_eq!(content_type_for("a.js"), "application/javascript");
    assert_eq!(content_type_for(".js"), "application/javascript");
    assert_eq!(content_type_for("a.min.js"), "application/javascript");
    assert_eq!(content_type_for("a.js.map"), "application/octet-stream");
    assert_eq!(content_type_for(".map"), "application/octet-stream");
    assert_eq!(content_type_for("a.map.js"), "application/javascript");
    assert_eq!(content_type_for("a.JS"), "text/plain");
    assert_eq!(content_type_for("js"), "text/plain");
    assert_eq!(content_type_for("a.json"), "text/plain");
    assert_eq!(content_type_for(""), "text/plain");
}

#[test]
fn first_file_of_a_name_is_the_one_found() {
    assert_eq!(find_file(&table(), "json2.js"), Some(2));
    assert_eq!(find_file(&table(), "eventsource.min.js"), Some(0));
    assert_eq!(find_file(&table(), "nothing"), None);
}

#[test]
fn file_is_served_by_its_name() {
    let r = serve_file("notes", &table());
    assert_eq!(r.status, 200);
    assert_eq!(r.headers, vec![header("Content-Type", "text/plain")]);
    assert_eq!(r.body, b"plain".to_vec());
    let r = serve_file("a/json2.js", &table());
    assert_eq!(r.status, 404);
}
