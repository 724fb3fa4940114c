//! Cross-linking articles: each article's body gets a link to every other
//! article whose title it mentions.
use vstd::prelude::*;
use crate::text::{first_match, lemma_first_match, matches_at, replace_first, replace_first_exec, same_text, swap_char, swap_char_exec};

verus! {

/// The human-readable title of a slug: underscores read as spaces.
pub open spec fn title_of(slug: Seq<char>) -> Seq<char> {
    swap_char(slug, '_', ' ')
}

/// The link target of a title: spaces written as underscores.
pub open spec fn target_of(title: Seq<char>) -> Seq<char> {
    swap_char(title, ' ', '_')
}

/// The markup that links `title` to its article: `[title](target)`.
pub open spec fn hyperlink_of(title: Seq<char>) -> Seq<char> {
    seq!['['] + title + seq![']', '('] + target_of(title) + seq![')']
}

/// `contents` after linking each title of `links` in turn, first to last,
/// each at its first occurrence in the text as it stands by then.
pub open spec fn linked(contents: Seq<char>, links: Seq<Seq<char>>) -> Seq<char>
    decreases links.len(),
{
    if links.len() == 0 {
        contents
    } else {
        let t = links.last();
        replace_first(linked(contents, links.drop_last()), t, hyperlink_of(t))
    }
}

/// The views of a sequence of strings.
pub open spec fn views(v: Seq<String>) -> Seq<Seq<char>> {
    v.map_values(|s: String| s@)
}

/// A document found in the article directory: its slug, and its text where
/// it could be read.
pub struct Source {
    pub slug: String,
    pub content: Option<String>,
}

/// An article: its slug and its (enriched) text.
pub struct Article {
    pub slug: String,
    pub content: String,
}

/// The slugs of a listing, in order.
pub open spec fn slugs_of(sources: Seq<Source>) -> Seq<Seq<char>> {
    sources.map_values(|s: Source| s.slug@)
}

/// The (slug, text) pairs of a sequence of articles.
pub open spec fn article_views(articles: Seq<Article>) -> Seq<(Seq<char>, Seq<char>)> {
    articles.map_values(|a: Article| (a.slug@, a.content@))
}

/// The titles of the slugs of `names` other than `current`, in order.
pub open spec fn titles_excluding(names: Seq<Seq<char>>, current: Seq<char>) -> Seq<Seq<char>>
    decreases names.len(),
{
    if names.len() == 0 {
        Seq::empty()
    } else {
        let rest = titles_excluding(names.drop_last(), current);
        if names.last() == current {
            rest
        } else {
            rest.push(title_of(names.last()))
        }
    }
}

/// The enriched articles of the first `n` documents of `sources`: each one
/// that could be read, with every other slug's title linked in listing order.
pub open spec fn enriched(sources: Seq<Source>, n: int) -> Seq<(Seq<char>, Seq<char>)>
    decreases n,
{
    if n <= 0 {
        Seq::empty()
    } else {
        let prev = enriched(sources, n - 1);
        let src = sources[n - 1];
        match src.content {
            Some(c) => prev.push(
                (src.slug@, linked(c@, titles_excluding(slugs_of(sources), src.slug@))),
            ),
            None => prev,
        }
    }
}

/// Every title linked into the document `current` is the title of a listed
/// slug other than `current`: a document never links to itself.
pub proof fn law_no_self_link(names: Seq<Seq<char>>, current: Seq<char>)
    ensures
        forall|k: int| 0 <= k < titles_excluding(names, current).len() ==> exists|j: int|
            0 <= j < names.len() && names[j] != current && #[trigger] titles_excluding(names, current)[k]
                == title_of(names[j]),
    decreases names.len(),
{
    if names.len() > 0 {
        let rest = names.drop_last();
        law_no_self_link(rest, current);
        let ts = titles_excluding(names, current);
        assert forall|k: int| 0 <= k < ts.len() implies exists|j: int|
            0 <= j < names.len() && names[j] != current && #[trigger] ts[k] == title_of(names[j]) by {
            if k < titles_excluding(rest, current).len() {
                let j = choose|j: int| 0 <= j < rest.len() && rest[j] != current
                    && #[trigger] titles_excluding(rest, current)[k] == title_of(rest[j]);
                assert(names[j] == rest[j]);
            } else {
                assert(names[names.len() - 1] == names.last());
            }
        }
    }
}

/// Returns the slugs of a listing; a listing that failed gives none.
pub fn determine_links(listing: Option<Vec<String>>) -> (r: Vec<String>)
    ensures
        r@ == match listing {
            Some(v) => v@,
            None => Seq::empty(),
        },
{
    match listing {
        Some(v) => v,
        None => Vec::new(),
    }
}

/// Returns the titles of the slugs in `names` other than `current`, in order.
pub fn other_titles(names: &Vec<String>, current: &str) -> (r: Vec<String>)
    ensures
        views(r@) == titles_excluding(views(names@), current@),
{
    let mut r: Vec<String> = Vec::new();
    let mut i: usize = 0;
    while i < names.len()
        invariant
            i <= names.len(),
            views(r@) == titles_excluding(views(names@).take(i as int), current@),
        decreases names.len() - i,
    {
        let ghost before = r@;
        let name = names[i].as_str();
        proof {
            let ns = views(names@).take(i + 1);
            assert(ns.drop_last() =~= views(names@).take(i as int));
            assert(ns.last() == name@);
        }
        if !same_text(name, current) {
            r.push(link_title(name));
            assert(views(r@) =~= views(before).push(r@.last()@));
        }
        i = i + 1;
    }
    assert(views(names@).take(i as int) =~= views(names@));
    r
}

/// Returns the articles of a listing, in listing order: each document that
/// could be read, with the titles of all other listed slugs linked into it
/// (see `add_hyperlinks`). Documents that could not be read are left out,
/// but their titles are still linked.
pub fn enrich_files(sources: &Vec<Source>) -> (r: Vec<Article>)
    ensures
        article_views(r@) == enriched(sources@, sources@.len() as int),
{
    let mut names: Vec<String> = Vec::new();
    let mut i: usize = 0;
    while i < sources.len()
        invariant
            i <= sources.len(),
            views(names@) == slugs_of(sources@).take(i as int),
        decreases sources.len() - i,
    {
        let ghost before = names@;
        names.push(sources[i].slug.clone());
        assert(views(names@) =~= views(before).push(sources@[i as int].slug@));
        assert(slugs_of(sources@).take(i + 1) =~= slugs_of(sources@).take(i as int).push(sources@[i as int].slug@));
        i = i + 1;
    }
    assert(slugs_of(sources@).take(i as int) =~= slugs_of(sources@));
    let mut r: Vec<Article> = Vec::new();
    let mut j: usize = 0;
    while j < sources.len()
        invariant
            j <= sources.len(),
            views(names@) == slugs_of(sources@),
            article_views(r@) == enriched(sources@, j as int),
        decreases sources.len() - j,
    {
        let src = &sources[j];
        match &src.content {
            Some(c) => {
                let links = other_titles(&names, src.slug.as_str());
                let content = add_hyperlinks(c.as_str(), links.as_slice());
                let ghost before = r@;
                r.push(Article { slug: src.slug.clone(), content });
                assert(article_views(r@) =~= article_views(before).push((src.slug@, content@)));
            },
            None => {},
        }
        j = j + 1;
    }
    r
}

/// Returns the title that stands for `slug`.
pub fn link_title(slug: &str) -> (r: String)
    ensures
        r@ == title_of(slug@),
{
    swap_char_exec(slug, '_', ' ')
}

/// Returns the markup that links `title` to its article.
pub fn hyperlink(title: &str) -> (r: String)
    ensures
        r@ == hyperlink_of(title@),
{
    let target = swap_char_exec(title, ' ', '_');
    let mut r = String::from_str("[");
    r.append(title);
    r.append("](");
    r.append(target.as_str());
    r.append(")");
    proof {
        reveal_strlit("[");
        reveal_strlit("](");
        reveal_strlit(")");
        assert(r@ =~= hyperlink_of(title@));
    }
    r
}

/// Links, in the order given, the first occurrence of each title of `links`
/// in `contents`.
pub fn add_hyperlinks(contents: &str, links: &[String]) -> (r: String)
    ensures
        r@ == linked(contents@, views(links@)),
{
    let mut r = String::from_str(contents);
    let mut i: usize = 0;
    while i < links.len()
        invariant
            i <= links.len(),
            r@ == linked(contents@, views(links@).take(i as int)),
        decreases links.len() - i,
    {
        let link = links[i].as_str();
        let h = hyperlink(link);
        proof {
            let ls = views(links@).take(i + 1);
            assert(ls.drop_last() =~= views(links@).take(i as int));
            assert(ls.last() == link@);
        }
        r = replace_first_exec(r.as_str(), link, h.as_str());
        i = i + 1;
    }
    proof {
        assert(views(links@).take(i as int) =~= views(links@));
    }
    r
}

/// Linking empty contents gives empty contents, whatever non-empty titles
/// are linked.
pub proof fn law_empty_contents_stay_empty(links: Seq<Seq<char>>)
    requires
        forall|k: int| 0 <= k < links.len() ==> #[trigger] links[k].len() > 0,
    ensures
        linked(Seq::empty(), links) == Seq::<char>::empty(),
    decreases links.len(),
{
    if links.len() > 0 {
        law_empty_contents_stay_empty(links.drop_last());
        assert(links.last().len() > 0);
        lemma_first_match(Seq::empty(), links.last());
    }
}

/// Contents in which no title of `links` occurs are left unchanged.
pub proof fn law_no_occurrence_unchanged(contents: Seq<char>, links: Seq<Seq<char>>)
    requires
        forall|k: int, i: int| 0 <= k < links.len() ==> !#[trigger] matches_at(contents, links[k], i),
    ensures
        linked(contents, links) == contents,
    decreases links.len(),
{
    if links.len() > 0 {
        let rest = links.drop_last();
        assert forall|k: int, i: int| 0 <= k < rest.len() implies !#[trigger] matches_at(contents, rest[k], i) by {
            assert(rest[k] == links[k]);
        }
        law_no_occurrence_unchanged(contents, rest);
        lemma_first_match(contents, links.last());
        if first_match(contents, links.last()) is Some {
            let k = first_match(contents, links.last())->0;
            assert(!matches_at(contents, links[links.len() - 1], k));
        }
    }
}

/// Where `title` occurs exactly once in `contents`, at `i`, linking it puts
/// its hyperlink in place of that occurrence and keeps every other character.
pub proof fn law_single_occurrence_linked(contents: Seq<char>, title: Seq<char>, i: int)
    requires
        matches_at(contents, title, i),
        forall|j: int| j != i ==> !#[trigger] matches_at(contents, title, j),
    ensures
        linked(contents, seq![title]) == contents.subrange(0, i) + hyperlink_of(title)
            + contents.subrange(i + title.len(), contents.len() as int),
{
    let links = seq![title];
    assert(links.drop_last() =~= Seq::<Seq<char>>::empty());
    assert(links.last() == title);
    assert(linked(contents, links.drop_last()) == contents);
    lemma_first_match(contents, title);
    if first_match(contents, title) is Some {
        let k = first_match(contents, title)->0;
        if k != i {
            assert(!matches_at(contents, title, k));
        }
    } else {
        assert(!matches_at(contents, title, i));
    }
    assert(linked(contents, links) == replace_first(contents, title, hyperlink_of(title)));
}

} // verus!
