use stop_it::domain::{
    extract_domain_from_title, host_of_url, service_domain, split_piece, TitlePattern,
};
use stop_it::text::{chars_of, contains_chars, str_contains, str_equal, string_of};

fn some(s: &str) -> Option<String> {
    Some(s.to_string())
}

#[test]
fn extracts_from_a_url_with_protocol() {
    assert_eq!(extract_domain_from_title("Visit https://www.github.com/foo"), some("github.com"));
    assert_eq!(extract_domain_from_title("http://example.org"), some("example.org"));
    assert_eq!(extract_domain_from_title("see https://docs.rs/regex here"), None);
}

#[test]
fn nothing_for_a_title_without_domain() {
    assert_eq!(extract_domain_from_title("some random title"), None);
    assert_eq!(extract_domain_from_title(""), None);
}

#[test]
fn falls_back_to_well_known_services() {
    assert_eq!(extract_domain_from_title("Reddit - Funny"), some("reddit.com"));
    assert_eq!(extract_domain_from_title("My video - YouTube"), some("youtube.com"));
    assert_eq!(extract_domain_from_title("Home / Twitter"), some("twitter.com"));
    assert_eq!(extract_domain_from_title("Pull requests · GitHub"), some("github.com"));
    assert_eq!(extract_domain_from_title("Projects · GitLab"), some("gitlab.com"));
    assert_eq!(extract_domain_from_title("rust - Stack Overflow"), some("stackoverflow.com"));
    assert_eq!(extract_domain_from_title("StackOverflow question"), some("stackoverflow.com"));
}

#[test]
fn extraction_is_repeatable() {
    let title = "Visit https://www.github.com/foo";
    assert_eq!(extract_domain_from_title(title), extract_domain_from_title(title));
}

#[test]
fn patterns_are_tried_most_specific_first() {
    assert_eq!(
        extract_domain_from_title("example.org - https://www.github.com/foo"),
        some("github.com")
    );
    assert_eq!(extract_domain_from_title("go to www.Example.COM now"), None);
    assert_eq!(extract_domain_from_title("go to www.Example.com now"), some("example.com"));
    assert_eq!(extract_domain_from_title("Rust (rust-lang.org)"), some("rust-lang.org"));
    assert_eq!(extract_domain_from_title("crates.io: Rust Package Registry"), some("crates.io"));
    assert_eq!(extract_domain_from_title("GitHub.com-mirror"), some("github.com"));
}

#[test]
fn fallback_looks_at_lowered_text_only() {
    assert_eq!(service_domain("my reddit page"), some("reddit.com"));
    assert_eq!(service_domain("My Reddit page"), None);
    assert_eq!(service_domain("youtube and reddit"), some("youtube.com"));
    assert_eq!(service_domain("stack overflow"), some("stackoverflow.com"));
    assert_eq!(service_domain("stack  overflow"), None);
    assert_eq!(service_domain(""), None);
}

#[test]
fn pattern_sources_are_the_regular_expressions() {
    let group = "([a-zA-Z0-9-]+\\.(?:com|org|net|io|dev|co|ai|app|tech|cloud|edu|gov|mil|int|info|biz|name|museum|uk|us|ca|au|de|fr|it|es|nl|jp|cn|in|br))";
    assert_eq!(TitlePattern::Url.regex(), format!("https?://(?:www\\.)?{}(?:/|$|\\s)", group));
    assert_eq!(TitlePattern::WwwPrefixed.regex(), format!("\\bwww\\.{}(?:/|$|\\s|\\))", group));
    assert_eq!(TitlePattern::Standalone.regex(), format!("\\b{}(?:/|$|\\s|\\)|:)", group));
    assert_eq!(TitlePattern::TitleStart.regex(), format!("^{}", group));
    assert_eq!(TitlePattern::Url.next(), Some(TitlePattern::WwwPrefixed));
    assert_eq!(TitlePattern::WwwPrefixed.next(), Some(TitlePattern::Standalone));
    assert_eq!(TitlePattern::Standalone.next(), Some(TitlePattern::TitleStart));
    assert_eq!(TitlePattern::TitleStart.next(), None);
}

#[test]
fn host_is_the_third_piece_of_the_url() {
    assert_eq!(host_of_url("https://reddit.com/r/x"), some("reddit.com"));
    assert_eq!(host_of_url("https://reddit.com"), some("reddit.com"));
    assert_eq!(host_of_url("https:///x"), some(""));
    assert_eq!(host_of_url("tab_update"), None);
    assert_eq!(host_of_url("a/b"), None);
    assert_eq!(host_of_url(""), None);
    assert_eq!(host_of_url("a/b/"), some(""));
}

#[test]
fn pieces_are_those_of_split() {
    let text = "a/bc//d";
    let pieces: Vec<&str> = text.split('/').collect();
    for n in 0..6 {
        assert_eq!(split_piece(text, '/', n), pieces.get(n).map(|p| p.to_string()));
    }
    assert_eq!(split_piece("", '/', 0), some(""));
    assert_eq!(split_piece("", '/', 1), None);
}

#[test]
fn text_helpers() {
    assert_eq!(chars_of("añb"), vec!['a', 'ñ', 'b']);
    assert_eq!(string_of(&vec!['x', 'ß']), "xß");
    assert!(str_contains("hello world", "lo w"));
    assert!(str_contains("hello", ""));
    assert!(str_contains("", ""));
    assert!(!str_contains("", "a"));
    assert!(!str_contains("hello", "hellos"));
    assert!(str_contains("hello", "hello"));
    assert!(contains_chars(&chars_of("abcabd"), &chars_of("abd")));
    assert!(str_equal("abc", "abc"));
    assert!(!str_equal("abc", "abd"));
    assert!(!str_equal("abc", "ab"));
}

#[test]
fn decimal_numerals() {
    let mut s = String::from("n=");
    stop_it::text::push_decimal(&mut s, 0);
    assert_eq!(s, "n=0");
    stop_it::text::push_decimal(&mut s, 1905);
    assert_eq!(s, "n=01905");
    let mut t = String::new();
    stop_it::text::push_decimal(&mut t, u128::MAX);
    assert_eq!(t, u128::MAX.to_string());
    let mut u = String::new();
    stop_it::text::push_signed_decimal(&mut u, -42);
    assert_eq!(u, "-42");
    let mut v = String::new();
    stop_it::text::push_signed_decimal(&mut v, i128::MIN);
    assert_eq!(v, i128::MIN.to_string());
}
