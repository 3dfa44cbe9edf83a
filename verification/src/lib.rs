//! A small text document that lists reviewed items is parsed into entries,
//! with the text helpers that the pages made of them call.

pub mod chars;
pub mod text;
pub mod token;
pub mod verdict;
pub mod info;
pub mod laws;
pub mod id;
pub mod intersect;
pub mod domain;
pub mod helpers;

pub use domain::{url_domain, NoDomain};
pub use helpers::{arrays_intersect_helper, id_helper, url_domain_helper, ArrayParam, HelperError};
pub use id::text_as_id;
pub use info::{get_entries, Entry, ParseError, Parser};
pub use intersect::arrays_intersect;
pub use token::split_token;
pub use verdict::Verdict;
