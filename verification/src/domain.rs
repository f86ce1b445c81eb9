//! From a window title, or from a URL, to the domain that it names.

use crate::text::{chars_of, contains, contains_chars, string_of};
use crate::tracker::text_of;
use vstd::prelude::*;
use vstd::string::StringExecFns;

verus! {

/// What `regex::Regex::captures` finds for the first capture group of
/// `pattern` in `haystack`: the text of the group in the leftmost match, or
/// `None` where `pattern` is no regular expression, where nothing matches, or
/// where the group took no part in the match.
pub uninterp spec fn regex_first_group(pattern: Seq<char>, haystack: Seq<char>) -> Option<
    Seq<char>,
>;

/// The lowercase equivalent of `s` as `str::to_lowercase` gives it, by the
/// rules of Unicode.
pub uninterp spec fn lowercase(s: Seq<char>) -> Seq<char>;

/// `str::to_lowercase` returns the lowercase equivalent of the text as a new
/// string. The result depends on the text alone; Unicode defines it.
pub assume_specification[ str::to_lowercase ](s: &str) -> (r: String)
    ensures
        r@ == lowercase(s@),
;

/// Compiles `pattern` with `regex::Regex::new`, searches `haystack` with
/// `Regex::captures` and reads the first group with `Captures::get` and
/// `Match::as_str`. Nothing is claimed of the result but that it is the one
/// the regex crate gives for these two texts.
#[verifier::external_body]
fn first_group(pattern: &str, haystack: &str) -> (r: Option<String>)
    ensures
        text_of(r) == regex_first_group(pattern@, haystack@),
{
    let compiled = regex::Regex::new(pattern).ok()?;
    let group = compiled.captures(haystack)?.get(1)?;
    Some(group.as_str().to_owned())
}

/// The ways in which a title can spell out a domain, the most specific first.
#[derive(Debug, Clone, Copy, PartialEq, Eq, Structural)]
pub enum TitlePattern {
    /// A URL with its protocol, with or without `www.`.
    Url,
    /// A domain written after `www.`.
    WwwPrefixed,
    /// A domain standing alone, followed by `/`, white space, `)`, `:` or the end.
    Standalone,
    /// A domain at the very start of the title.
    TitleStart,
}

/// The top-level domains that a domain may end in, as an alternation.
pub open spec fn tld_alternation() -> Seq<char> {
    "com|org|net|io|dev|co|ai|app|tech|cloud|edu|gov|mil|int|info|biz|name|museum|uk|us|ca|au|de|fr|it|es|nl|jp|cn|in|br"@
}

impl TitlePattern {
    /// What must stand before the domain.
    pub open spec fn before(self) -> Seq<char> {
        match self {
            TitlePattern::Url => "https?://(?:www\\.)?"@,
            TitlePattern::WwwPrefixed => "\\bwww\\."@,
            TitlePattern::Standalone => "\\b"@,
            TitlePattern::TitleStart => "^"@,
        }
    }

    /// What must stand after the domain.
    pub open spec fn after(self) -> Seq<char> {
        match self {
            TitlePattern::Url => "(?:/|$|\\s)"@,
            TitlePattern::WwwPrefixed => "(?:/|$|\\s|\\))"@,
            TitlePattern::Standalone => "(?:/|$|\\s|\\)|:)"@,
            TitlePattern::TitleStart => ""@,
        }
    }

    /// The regular expression of the pattern. Its first group is the domain:
    /// a name of letters, digits and hyphens, a dot and a top-level domain.
    pub open spec fn source(self) -> Seq<char> {
        self.before() + "([a-zA-Z0-9-]+\\.(?:"@ + tld_alternation() + "))"@ + self.after()
    }

    /// The pattern that is tried after this one.
    pub open spec fn following(self) -> Option<TitlePattern> {
        match self {
            TitlePattern::Url => Some(TitlePattern::WwwPrefixed),
            TitlePattern::WwwPrefixed => Some(TitlePattern::Standalone),
            TitlePattern::Standalone => Some(TitlePattern::TitleStart),
            TitlePattern::TitleStart => None,
        }
    }

    /// How many patterns are tried after this one.
    pub open spec fn remaining(self) -> nat {
        match self {
            TitlePattern::Url => 3,
            TitlePattern::WwwPrefixed => 2,
            TitlePattern::Standalone => 1,
            TitlePattern::TitleStart => 0,
        }
    }

    /// What must stand before the domain.
    pub fn prefix(self) -> (r: &'static str)
        ensures
            r@ == self.before(),
    {
        match self {
            TitlePattern::Url => "https?://(?:www\\.)?",
            TitlePattern::WwwPrefixed => "\\bwww\\.",
            TitlePattern::Standalone => "\\b",
            TitlePattern::TitleStart => "^",
        }
    }

    /// What must stand after the domain.
    pub fn suffix(self) -> (r: &'static str)
        ensures
            r@ == self.after(),
    {
        match self {
            TitlePattern::Url => "(?:/|$|\\s)",
            TitlePattern::WwwPrefixed => "(?:/|$|\\s|\\))",
            TitlePattern::Standalone => "(?:/|$|\\s|\\)|:)",
            TitlePattern::TitleStart => "",
        }
    }

    /// The regular expression of the pattern.
    pub fn regex(self) -> (r: String)
        ensures
            r@ == self.source(),
    {
        let mut r = self.prefix().to_owned();
        r.append("([a-zA-Z0-9-]+\\.(?:");
        r.append(
            "com|org|net|io|dev|co|ai|app|tech|cloud|edu|gov|mil|int|info|biz|name|museum|uk|us|ca|au|de|fr|it|es|nl|jp|cn|in|br",
        );
        r.append("))");
        r.append(self.suffix());
        r
    }

    /// The pattern that is tried after this one.
    pub fn next(self) -> (r: Option<TitlePattern>)
        ensures
            r == self.following(),
    {
        match self {
            TitlePattern::Url => Some(TitlePattern::WwwPrefixed),
            TitlePattern::WwwPrefixed => Some(TitlePattern::Standalone),
            TitlePattern::Standalone => Some(TitlePattern::TitleStart),
            TitlePattern::TitleStart => None,
        }
    }
}

/// The domain that the patterns find in `title`, from `pattern` on: the
/// first group of the first pattern that matches.
pub open spec fn captured_from(pattern: TitlePattern, title: Seq<char>) -> Option<Seq<char>>
    decreases pattern.remaining(),
{
    match regex_first_group(pattern.source(), title) {
        Some(group) => Some(group),
        None => match pattern.following() {
            Some(next) => captured_from(next, title),
            None => None,
        },
    }
}

/// The domain of the first well-known service that `lowered` names.
pub open spec fn known_service(lowered: Seq<char>) -> Option<Seq<char>> {
    if contains(lowered, "youtube"@) {
        Some("youtube.com"@)
    } else if contains(lowered, "reddit"@) {
        Some("reddit.com"@)
    } else if contains(lowered, "twitter"@) {
        Some("twitter.com"@)
    } else if contains(lowered, "github"@) {
        Some("github.com"@)
    } else if contains(lowered, "gitlab"@) {
        Some("gitlab.com"@)
    } else if contains(lowered, "stackoverflow"@) || contains(lowered, "stack overflow"@) {
        Some("stackoverflow.com"@)
    } else {
        None
    }
}

/// The domain that a title names: what the first matching pattern captures,
/// in lower case; where no pattern matches, the domain of the well-known
/// service that the title, in lower case, names.
pub open spec fn extracted(title: Seq<char>) -> Option<Seq<char>> {
    match captured_from(TitlePattern::Url, title) {
        Some(group) => Some(lowercase(group)),
        None => known_service(lowercase(title)),
    }
}

/// The domain of the first well-known service whose name stands in
/// `lowered`, a title already in lower case.
pub fn service_domain(lowered: &str) -> (r: Option<String>)
    ensures
        text_of(r) == known_service(lowered@),
{
    let hay = chars_of(lowered);
    if contains_chars(&hay, &chars_of("youtube")) {
        Some("youtube.com".to_owned())
    } else if contains_chars(&hay, &chars_of("reddit")) {
        Some("reddit.com".to_owned())
    } else if contains_chars(&hay, &chars_of("twitter")) {
        Some("twitter.com".to_owned())
    } else if contains_chars(&hay, &chars_of("github")) {
        Some("github.com".to_owned())
    } else if contains_chars(&hay, &chars_of("gitlab")) {
        Some("gitlab.com".to_owned())
    } else if contains_chars(&hay, &chars_of("stackoverflow")) || contains_chars(
        &hay,
        &chars_of("stack overflow"),
    ) {
        Some("stackoverflow.com".to_owned())
    } else {
        None
    }
}

/// The domain that the window title `title` names, if it names one.
pub fn extract_domain_from_title(title: &str) -> (r: Option<String>)
    ensures
        text_of(r) == extracted(title@),
{
    let mut pattern = TitlePattern::Url;
    loop
        invariant
            captured_from(TitlePattern::Url, title@) == captured_from(pattern, title@),
        ensures
            captured_from(TitlePattern::Url, title@) is None,
        decreases pattern.remaining(),
    {
        let source = pattern.regex();
        match first_group(source.as_str(), title) {
            Some(group) => {
                return Some(group.as_str().to_lowercase());
            },
            None => {},
        }
        match pattern.next() {
            Some(next) => {
                pattern = next;
            },
            None => {
                break ;
            },
        }
    }
    let lowered = title.to_lowercase();
    service_domain(lowered.as_str())
}

/// Where the first `sep` stands in `s` at or after `from`: the length of `s`
/// where there is none.
pub open spec fn next_sep(s: Seq<char>, sep: char, from: int) -> int
    decreases s.len() - from,
{
    if from < 0 || from >= s.len() {
        s.len() as int
    } else if s[from] == sep {
        from
    } else {
        next_sep(s, sep, from + 1)
    }
}

/// The piece numbered `n`, from zero, of `s` cut at every `sep`: `None`
/// where `s` has fewer pieces.
pub open spec fn piece(s: Seq<char>, sep: char, n: nat) -> Option<Seq<char>>
    decreases n,
{
    let end = next_sep(s, sep, 0);
    if n == 0 {
        Some(s.take(end))
    } else if end == s.len() {
        None
    } else {
        piece(s.skip(end + 1), sep, (n - 1) as nat)
    }
}

/// The host of a URL, taken without parsing it: the text between the second
/// `/` and the next one.
pub open spec fn url_host(url: Seq<char>) -> Option<Seq<char>> {
    piece(url, '/', 2)
}

proof fn lemma_next_sep(s: Seq<char>, sep: char, from: int, at: int)
    requires
        0 <= from <= at <= s.len(),
        forall|j: int| from <= j < at ==> s[j] != sep,
        at == s.len() || s[at] == sep,
    ensures
        next_sep(s, sep, from) == at,
    decreases at - from,
{
    if from < at {
        lemma_next_sep(s, sep, from + 1, at);
    }
}

/// Where the first `sep` stands in `chars` at or after `from`.
fn find_sep(chars: &Vec<char>, sep: char, from: usize) -> (at: usize)
    requires
        from <= chars.len(),
    ensures
        from <= at <= chars.len(),
        at - from == next_sep(chars@.skip(from as int), sep, 0),
{
    let mut at: usize = from;
    while at < chars.len() && chars[at] != sep
        invariant
            from <= at <= chars.len(),
            forall|j: int| from <= j < at ==> chars@[j] != sep,
        decreases chars.len() - at,
    {
        at = at + 1;
    }
    proof {
        lemma_next_sep(chars@.skip(from as int), sep, 0, at - from);
    }
    at
}

/// The piece numbered `n`, from zero, of `s` cut at every `sep`.
pub fn split_piece(s: &str, sep: char, n: usize) -> (r: Option<String>)
    ensures
        text_of(r) == piece(s@, sep, n as nat),
{
    let chars = chars_of(s);
    let mut start: usize = 0;
    let mut skipped: usize = 0;
    assert(chars@.skip(0) =~= s@);
    while skipped < n
        invariant
            skipped <= n,
            start <= chars.len(),
            chars@ == s@,
            piece(s@, sep, n as nat) == piece(
                chars@.skip(start as int),
                sep,
                (n - skipped) as nat,
            ),
        decreases n - skipped,
    {
        let at = find_sep(&chars, sep, start);
        if at == chars.len() {
            return None;
        }
        assert(chars@.skip(start as int).skip(at - start + 1) =~= chars@.skip(at + 1));
        start = at + 1;
        skipped = skipped + 1;
    }
    let end = find_sep(&chars, sep, start);
    let mut found: Vec<char> = Vec::new();
    let mut i: usize = start;
    while i < end
        invariant
            start <= i <= end <= chars.len(),
            found@ == chars@.subrange(start as int, i as int),
        decreases end - i,
    {
        found.push(chars[i]);
        assert(chars@.subrange(start as int, i + 1) =~= chars@.subrange(
            start as int,
            i as int,
        ).push(chars@[i as int]));
        i = i + 1;
    }
    assert(chars@.skip(start as int).take(end - start) =~= chars@.subrange(
        start as int,
        end as int,
    ));
    Some(string_of(&found))
}

/// The host of `url`, taken without parsing it: the text between the second
/// `/` and the next one, `None` where `url` has fewer than two.
pub fn host_of_url(url: &str) -> (r: Option<String>)
    ensures
        text_of(r) == url_host(url@),
{
    split_piece(url, '/', 2)
}

} // verus!
