//! Metadata scraped from a channel page: its title, description and
//! image, read out of the page's `og:` meta tags.  Fetching the page is
//! input/output and happens outside this crate; extracting the values
//! from the page text is done here.

use vstd::prelude::*;

verus! {

/// A channel page's scraped metadata.
#[derive(Debug, Clone)]
pub struct YTInfo {
    pub title: String,
    pub description: String,
    pub image: String,
}

/// The content attribute of the page's meta tag for a property, when the
/// page carries one — a pure function of the page text and the property
/// name.
pub uninterp spec fn meta_content_of(html: Seq<char>, property: Seq<char>) -> Option<Seq<char>>;

/// Relies on the regex crate (`Regex::new`, `Regex::captures`): whether a
/// `meta property="…" content="…"` tag occurs in a page and what its
/// content attribute holds is a function of the page text and the
/// property name alone.  The pattern template below is part of what is
/// trusted: it is the fixed argument handed to the compiler, with only
/// the property name substituted in.
#[verifier::external_body]
fn meta_content(html: &str, property: &str) -> (r: Option<String>)
    ensures
        r matches Some(s) ==> meta_content_of(html@, property@) == Some(s@),
        r is None ==> meta_content_of(html@, property@) is None,
{
    let pattern = format!(r#"meta\s+property="{}"\s+content="(?P<content>[^"]*)""#, property);
    let re = match regex::Regex::new(&pattern) {
        Ok(re) => re,
        Err(_) => return None,
    };
    let caps = match re.captures(html) {
        Some(caps) => caps,
        None => return None,
    };
    caps.name("content").map(|m| m.as_str().to_string())
}

/// The content of the named metadata property, or empty when the page
/// does not carry it.
pub fn get_metadata(html: &str, metadata: &str) -> (r: String)
    ensures
        r@ == match meta_content_of(html@, metadata@) {
            Option::Some(content) => content,
            Option::None => Seq::<char>::empty(),
        },
{
    match meta_content(html, metadata) {
        Option::Some(s) => s,
        Option::None => String::new(),
    }
}

/// Position of the first question mark, or the length when there is none.
pub open spec fn find_query(s: Seq<char>) -> int
    decreases s.len(),
{
    if s.len() == 0 {
        0
    } else if s[0] == '?' {
        0
    } else {
        1 + find_query(s.drop_first())
    }
}

/// An image URL with any query string cut off.
pub open spec fn before_query(s: Seq<char>) -> Seq<char> {
    s.take(find_query(s))
}

proof fn lemma_find_query(s: Seq<char>)
    ensures
        0 <= find_query(s) <= s.len(),
        forall|j: int| 0 <= j < find_query(s) ==> s[j] != '?',
        find_query(s) < s.len() ==> s[find_query(s)] == '?',
    decreases s.len(),
{
    if s.len() > 0 && s[0] != '?' {
        lemma_find_query(s.drop_first());
        assert forall|j: int| 0 <= j < find_query(s) implies s[j] != '?' by {
            if j > 0 {
                assert(s.drop_first()[j - 1] == s[j]);
            }
        }
    }
}

/// The first question mark is where the scan that found no earlier one
/// stopped.
proof fn lemma_find_query_at(s: Seq<char>, pos: int)
    requires
        0 <= pos <= s.len(),
        forall|j: int| 0 <= j < pos ==> s[j] != '?',
        pos < s.len() ==> s[pos] == '?',
    ensures
        find_query(s) == pos,
    decreases s.len(),
{
    lemma_find_query(s);
    if pos > 0 {
        assert(s[0] != '?');
        assert forall|j: int| 0 <= j < pos - 1 implies s.drop_first()[j] != '?' by {
            assert(s.drop_first()[j] == s[j + 1]);
        }
        lemma_find_query_at(s.drop_first(), pos - 1);
    }
}

/// The page's `og:image` content with any query string cut off, or empty
/// when the page has no such tag.
pub fn get_image(html: &str) -> (r: String)
    ensures
        r@ == match meta_content_of(html@, "og:image"@) {
            Option::Some(content) => before_query(content),
            Option::None => Seq::<char>::empty(),
        },
{
    let content = match meta_content(html, "og:image") {
        Option::Some(s) => s,
        Option::None => {
            return String::new();
        },
    };
    let s = content.as_str();
    let n = s.unicode_len();
    let mut pos: usize = 0;
    while pos < n && s.get_char(pos) != '?'
        invariant
            pos <= n == s@.len(),
            forall|j: int| 0 <= j < pos ==> s@[j] != '?',
        decreases n - pos,
    {
        pos = pos + 1;
    }
    proof {
        lemma_find_query_at(s@, pos as int);
    }
    s.substring_char(0, pos).to_owned()
}

impl YTInfo {
    /// The metadata of a page that carries none: all fields empty.
    pub fn default() -> (r: Self)
        ensures
            r.title@ == Seq::<char>::empty(),
            r.description@ == Seq::<char>::empty(),
            r.image@ == Seq::<char>::empty(),
    {
        YTInfo { title: String::new(), description: String::new(), image: String::new() }
    }

    /// Scrape a page's `og:title`, `og:description` and `og:image` tags.
    pub fn from_html(html: &str) -> (r: Self)
        ensures
            r.title@ == match meta_content_of(html@, "og:title"@) {
                Option::Some(content) => content,
                Option::None => Seq::<char>::empty(),
            },
            r.description@ == match meta_content_of(html@, "og:description"@) {
                Option::Some(content) => content,
                Option::None => Seq::<char>::empty(),
            },
            r.image@ == match meta_content_of(html@, "og:image"@) {
                Option::Some(content) => before_query(content),
                Option::None => Seq::<char>::empty(),
            },
    {
        YTInfo {
            title: get_metadata(html, "og:title"),
            description: get_metadata(html, "og:description"),
            image: get_image(html),
        }
    }
}

} // verus!
