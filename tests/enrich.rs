use knowledge::enrich::{add_hyperlinks, determine_links, enrich_files, hyperlink, link_title, other_titles, Source};

#[test]
fn empty_contents_returns_empty_string() {
    assert_eq!(add_hyperlinks("", &[]), "".to_string());
    assert_eq!(add_hyperlinks("", &["link".to_string()]), "".to_string());
}

#[test]
fn populated_contents_with_empty_links_returns_unaltered_contents() {
    assert_eq!(add_hyperlinks("contents", &[]), "contents".to_string());
}

#[test]
fn populated_contents_with_different_link_returns_unaltered_contents() {
    assert_eq!(add_hyperlinks("contents", &["link".to_string()]), "contents".to_string());
}

#[test]
fn populated_contents_with_matching_link_returns_hyperlinked_contents() {
    assert_eq!(add_hyperlinks("link", &["link".to_string()]), "[link](link)".to_string());
}

#[test]
fn only_first_occurrence_is_linked() {
    assert_eq!(
        add_hyperlinks("a cat and a cat", &["cat".to_string()]),
        "a [cat](cat) and a cat".to_string()
    );
}

#[test]
fn single_occurrence_keeps_surrounding_text() {
    assert_eq!(
        add_hyperlinks("I saw New York today", &["New York".to_string()]),
        "I saw [New York](New_York) today".to_string()
    );
}

#[test]
fn titles_are_linked_in_the_order_given() {
    let links = vec!["a".to_string(), "b".to_string()];
    assert_eq!(add_hyperlinks("b a", &links), "[b](b) [a](a)".to_string());
}

#[test]
fn later_title_may_match_inside_earlier_markup() {
    let links = vec!["New York".to_string(), "York".to_string()];
    assert_eq!(
        add_hyperlinks("New York", &links),
        "[New [York](York)](New_York)".to_string()
    );
}

#[test]
fn empty_title_matches_at_the_start() {
    assert_eq!(add_hyperlinks("", &["".to_string()]), "[]()".to_string());
}

#[test]
fn title_reads_underscores_as_spaces() {
    assert_eq!(link_title("New_York_City"), "New York City".to_string());
    assert_eq!(link_title("Dog"), "Dog".to_string());
}

#[test]
fn hyperlink_targets_underscored_slug() {
    assert_eq!(hyperlink("New York"), "[New York](New_York)".to_string());
}

#[test]
fn other_titles_leave_out_current_slug() {
    let names = vec!["Dog".to_string(), "Big_Cat".to_string(), "Cow".to_string()];
    assert_eq!(
        other_titles(&names, "Dog"),
        vec!["Big Cat".to_string(), "Cow".to_string()]
    );
}

#[test]
fn failed_listing_gives_no_slugs() {
    assert_eq!(determine_links(None), Vec::<String>::new());
    assert_eq!(
        determine_links(Some(vec!["a".to_string()])),
        vec!["a".to_string()]
    );
}

fn source(slug: &str, content: Option<&str>) -> Source {
    Source { slug: slug.to_string(), content: content.map(|c| c.to_string()) }
}

#[test]
fn dog_and_cat_link_each_other_but_not_themselves() {
    let sources = vec![
        source("Dog", Some("I love Cat.")),
        source("Cat", Some("I love Dog.")),
    ];
    let articles = enrich_files(&sources);
    assert_eq!(articles.len(), 2);
    assert_eq!(articles[0].slug, "Dog".to_string());
    assert_eq!(articles[0].content, "I love [Cat](Cat).".to_string());
    assert_eq!(articles[1].slug, "Cat".to_string());
    assert_eq!(articles[1].content, "I love [Dog](Dog).".to_string());
}

#[test]
fn own_title_in_own_body_is_not_linked() {
    let sources = vec![
        source("Dog", Some("Dog says: I love Cat.")),
        source("Cat", Some("Cat")),
    ];
    let articles = enrich_files(&sources);
    assert_eq!(articles[0].content, "Dog says: I love [Cat](Cat).".to_string());
    assert_eq!(articles[1].content, "Cat".to_string());
}

#[test]
fn unreadable_document_is_left_out_but_still_linked() {
    let sources = vec![
        source("Big_Dog", None),
        source("Cat", Some("A Big Dog chased me.")),
    ];
    let articles = enrich_files(&sources);
    assert_eq!(articles.len(), 1);
    assert_eq!(articles[0].slug, "Cat".to_string());
    assert_eq!(articles[0].content, "A [Big Dog](Big_Dog) chased me.".to_string());
}

#[test]
fn empty_listing_gives_no_articles() {
    assert_eq!(enrich_files(&Vec::new()).len(), 0);
}

#[test]
fn single_article_gets_no_links() {
    let articles = enrich_files(&vec![source("Dog", Some("Dog"))]);
    assert_eq!(articles[0].content, "Dog".to_string());
}
