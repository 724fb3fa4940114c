//! Looking up an article by request path and rendering it.
use vstd::prelude::*;
use crate::enrich::{article_views, Article};
use crate::text::{char_vec, push_range, same_text};

verus! {

/// What pulldown_cmark renders a markdown text into.
pub uninterp spec fn html_of(markdown: Seq<char>) -> Seq<char>;

/// Relies on pulldown_cmark's `Parser::new` and `html::push_html`: the HTML
/// rendering of a markdown text, which depends on the text alone.
#[verifier::external_body]
fn parse_markdown(markdown: &str) -> (r: String)
    ensures
        r@ == html_of(markdown@),
{
    let parser = pulldown_cmark::Parser::new(markdown);
    let mut buf = String::new();
    pulldown_cmark::html::push_html(&mut buf, parser);
    buf
}

/// The text served for a path that names no article.
pub open spec fn fallback_text() -> Seq<char> {
    "Nothing here! Best write something!"@
}

/// `s` without its leading and trailing `/` characters.
pub open spec fn trim_slashes(s: Seq<char>) -> Seq<char>
    decreases s.len(),
{
    if s.len() > 0 && s[0] == '/' {
        trim_slashes(s.drop_first())
    } else if s.len() > 0 && s.last() == '/' {
        trim_slashes(s.drop_last())
    } else {
        s
    }
}

/// The text of the last article in `entries` whose slug is `slug`, if any.
pub open spec fn lookup(entries: Seq<(Seq<char>, Seq<char>)>, slug: Seq<char>) -> Option<Seq<char>>
    decreases entries.len(),
{
    if entries.len() == 0 {
        None
    } else if entries.last().0 == slug {
        Some(entries.last().1)
    } else {
        lookup(entries.drop_last(), slug)
    }
}

/// The markdown served for `path`: the article its slug names, or the
/// fallback text.
pub open spec fn markup_for(entries: Seq<(Seq<char>, Seq<char>)>, path: Seq<char>) -> Seq<char> {
    match lookup(entries, trim_slashes(path)) {
        Some(c) => c,
        None => fallback_text(),
    }
}

/// A path whose slug names no article is answered with the fallback text,
/// rendered like any article.
pub proof fn law_absent_slug_renders_fallback(entries: Seq<(Seq<char>, Seq<char>)>, path: Seq<char>)
    requires
        lookup(entries, trim_slashes(path)) is None,
    ensures
        html_of(markup_for(entries, path)) == html_of(fallback_text()),
{
}

/// Returns `path` without its leading and trailing `/` characters.
pub fn slug_of_path(path: &str) -> (r: String)
    ensures
        r@ == trim_slashes(path@),
{
    let v = char_vec(path);
    let mut lo: usize = 0;
    let mut hi: usize = v.len();
    assert(v@.subrange(0, v@.len() as int) =~= v@);
    loop
        invariant
            lo <= hi <= v.len(),
            v@ == path@,
            trim_slashes(v@.subrange(lo as int, hi as int)) == trim_slashes(path@),
        ensures
            lo <= hi <= v.len(),
            trim_slashes(path@) == v@.subrange(lo as int, hi as int),
        decreases hi - lo,
    {
        let ghost sub = v@.subrange(lo as int, hi as int);
        if lo < hi && v[lo] == '/' {
            assert(sub.drop_first() =~= v@.subrange(lo + 1, hi as int));
            lo = lo + 1;
        } else if lo < hi && v[hi - 1] == '/' {
            assert(sub.drop_last() =~= v@.subrange(lo as int, hi - 1));
            hi = hi - 1;
        } else {
            assert(trim_slashes(sub) == sub);
            break;
        }
    }
    let mut r = String::new();
    push_range(&mut r, &v, lo, hi);
    r
}

/// Returns the text of the last article whose slug is `slug`, if any.
pub fn lookup_article(articles: &Vec<Article>, slug: &str) -> (r: Option<String>)
    ensures
        match r {
            Some(c) => lookup(article_views(articles@), slug@) == Some(c@),
            None => lookup(article_views(articles@), slug@) is None,
        },
{
    let mut i: usize = articles.len();
    assert(article_views(articles@).take(i as int) =~= article_views(articles@));
    while i > 0
        invariant
            i <= articles.len(),
            lookup(article_views(articles@), slug@) == lookup(article_views(articles@).take(i as int), slug@),
        decreases i,
    {
        let ghost entries = article_views(articles@).take(i as int);
        assert(entries.drop_last() =~= article_views(articles@).take(i - 1));
        if same_text(articles[i - 1].slug.as_str(), slug) {
            return Some(articles[i - 1].content.clone());
        }
        i = i - 1;
    }
    None
}

/// Returns the markdown served for `path`: the text of the article that its
/// slug names, or the fallback text.
pub fn article_markup(articles: &Vec<Article>, path: &str) -> (r: String)
    ensures
        r@ == markup_for(article_views(articles@), path@),
{
    let slug = slug_of_path(path);
    match lookup_article(articles, slug.as_str()) {
        Some(c) => c,
        None => String::from_str("Nothing here! Best write something!"),
    }
}

/// Returns the HTML served for `path`: the article that its slug names, or
/// the fallback text, rendered from markdown either way.
pub fn find_article(articles: &Vec<Article>, path: &str) -> (r: String)
    ensures
        r@ == html_of(markup_for(article_views(articles@), path@)),
{
    let markup = article_markup(articles, path);
    parse_markdown(markup.as_str())
}

} // verus!
