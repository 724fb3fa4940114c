//! A small personal wiki: articles that link to each other by title, and a
//! minimal HTTP/1.1 request parser and response builder to serve them.
pub mod text;
pub mod enrich;
pub mod site;
pub mod http;
