use fanout_gateway::text::last_segment_of;
use fanout_gateway::text::str_ends_with;
use fanout_gateway::text::str_eq;
use fanout_gateway::text::str_eq_ignore_ascii_case;
use fanout_gateway::text::str_starts_with;
use fanout_gateway::text::to_ascii_lower;
use fanout_gateway::text::to_chars;

#[test]
fn characters_of_a_text() {
    assert_eq!(to_chars(""), Vec::<char>::new());
    assert_eq!(to_chars("a\u{e9}\u{1f600}"), vec!['a', '\u{e9}', '\u{1f600}']);
}

#[test]
fn lower_case_moves_ascii_capitals_only() {
    assert_eq!(to_ascii_lower('A'), 'a');
    assert_eq!(to_ascii_lower('Z'), 'z');
    assert_eq!(to_ascii_lower('m'), 'm');
    assert_eq!(to_ascii_lower('@'), '@');
    assert_eq!(to_ascii_lower('['), '[');
    assert_eq!(to_ascii_lower('-'), '-');
    assert_eq!(to_ascii_lower('\u{c9}'), '\u{c9}');
    for c in 0u8..128 {
        assert_eq!(to_ascii_lower(c as char), (c as char).to_ascii_lowercase());
    }
}

#[test]
fn equality_of_texts() {
    assert!(str_eq("", ""));
    assert!(str_eq("/test", "/test"));
    assert!(!str_eq("/test", "/test/"));
    assert!(!str_eq("/test", "/tesT"));
    assert!(!str_eq("", "a"));
    assert!(str_eq("gr\u{fc}n", "gr\u{fc}n"));
    assert!(!str_eq("gr\u{fc}n", "grun"));
}

#[test]
fn equality_up_to_ascii_case() {
    assert!(str_eq_ignore_ascii_case("https", "https"));
    assert!(str_eq_ignore_ascii_case("HTTPS", "https"));
    assert!(str_eq_ignore_ascii_case("HtTpS", "hTtPs"));
    assert!(str_eq_ignore_ascii_case("", ""));
    assert!(!str_eq_ignore_ascii_case("http", "https"));
    assert!(!str_eq_ignore_ascii_case("https", "http"));
    assert!(!str_eq_ignore_ascii_case("httpz", "https"));
    // '@' and '`' differ by 32 as 'A' and 'a' do, and are no letters.
    assert!(!str_eq_ignore_ascii_case("@", "`"));
    assert!(!str_eq_ignore_ascii_case("[", "{"));
    assert!(!str_eq_ignore_ascii_case("\u{c9}", "\u{e9}"));
    assert!(str_eq_ignore_ascii_case("\u{c9}A", "\u{c9}a"));
}

#[test]
fn prefix_of_a_text() {
    assert!(str_starts_with("/test/ws", "/test/"));
    assert!(str_starts_with("/test/", "/test/"));
    assert!(str_starts_with("abc", ""));
    assert!(str_starts_with("", ""));
    assert!(!str_starts_with("/test", "/test/"));
    assert!(!str_starts_with("/Test/ws", "/test/"));
    assert!(!str_starts_with("", "a"));
    assert!(str_starts_with("\u{e9}t\u{e9}", "\u{e9}t"));
    assert!(!str_starts_with("\u{e9}t\u{e9}", "\u{e8}"));
}

#[test]
fn suffix_of_a_text() {
    assert!(str_ends_with("a.fanoutcdn.com", ".fanoutcdn.com"));
    assert!(str_ends_with(".fanoutcdn.com", ".fanoutcdn.com"));
    assert!(str_ends_with("abc", ""));
    assert!(str_ends_with("", ""));
    assert!(!str_ends_with("fanoutcdn.com", ".fanoutcdn.com"));
    assert!(!str_ends_with("a.fanoutcdn.com.", ".fanoutcdn.com"));
    assert!(!str_ends_with("", "a"));
    assert!(str_ends_with("caf\u{e9}", "f\u{e9}"));
}

#[test]
fn last_segment_of_a_path() {
    assert_eq!(last_segment_of("/test/static/json2.js"), "json2.js");
    assert_eq!(last_segment_of("/test/static/a/b/c.map"), "c.map");
    assert_eq!(last_segment_of("/test/static/"), "");
    assert_eq!(last_segment_of("/"), "");
    assert_eq!(last_segment_of(""), "");
    assert_eq!(last_segment_of("plain"), "plain");
    assert_eq!(last_segment_of("//"), "");
    assert_eq!(last_segment_of("/a//b"), "b");
    assert_eq!(last_segment_of("/caf\u{e9}/\u{fc}ber.js"), "\u{fc}ber.js");
    assert_eq!(last_segment_of("/a/b%2Fc"), "b%2Fc");
}
