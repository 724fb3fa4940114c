use knowledge::enrich::Article;
use knowledge::site::{article_markup, find_article, lookup_article, slug_of_path};

fn article(slug: &str, content: &str) -> Article {
    Article { slug: slug.to_string(), content: content.to_string() }
}

#[test]
fn path_slashes_are_trimmed() {
    assert_eq!(slug_of_path("/Dog/"), "Dog".to_string());
    assert_eq!(slug_of_path("//a/b//"), "a/b".to_string());
    assert_eq!(slug_of_path("///"), "".to_string());
    assert_eq!(slug_of_path("Dog"), "Dog".to_string());
}

#[test]
fn lookup_finds_named_article() {
    let articles = vec![article("Dog", "woof"), article("Cat", "meow")];
    assert_eq!(lookup_article(&articles, "Cat"), Some("meow".to_string()));
    assert_eq!(lookup_article(&articles, "Cow"), None);
}

#[test]
fn lookup_prefers_later_article_with_same_slug() {
    let articles = vec![article("Dog", "first"), article("Dog", "second")];
    assert_eq!(lookup_article(&articles, "Dog"), Some("second".to_string()));
}

#[test]
fn absent_slug_gives_fallback_markup() {
    let articles = vec![article("Dog", "woof")];
    assert_eq!(
        article_markup(&articles, "/Cow"),
        "Nothing here! Best write something!".to_string()
    );
    assert_eq!(article_markup(&articles, "/Dog"), "woof".to_string());
}

#[test]
fn absent_slug_renders_fallback_text() {
    assert_eq!(
        find_article(&Vec::new(), "/missing"),
        "<p>Nothing here! Best write something!</p>\n".to_string()
    );
}

#[test]
fn article_is_rendered_from_markdown() {
    let articles = vec![article("Dog", "# Dog\n\nI love [Cat](Cat).")];
    assert_eq!(
        find_article(&articles, "/Dog/"),
        "<h1>Dog</h1>\n<p>I love <a href=\"Cat\">Cat</a>.</p>\n".to_string()
    );
}
