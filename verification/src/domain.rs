//! The domain of a link: the host that a text names, found by a pattern.

use vstd::prelude::*;

verus! {

/// What the first match of the regular expression `pattern` in `text` holds
/// in its capture group number `group`: `None` where `pattern` is no valid
/// expression, where nothing in `text` matches it, or where the group took no
/// part in the match.
pub uninterp spec fn first_match_group(pattern: Seq<char>, group: nat, text: Seq<char>) -> Option<Seq<char>>;

/// The pattern of a link: an optional scheme `http://` or `https://`, an
/// optional `www.`, and then, as group 1, the host: two or more labels of
/// word characters and hyphens with dots between them.
pub const DOMAIN_PATTERN: &'static str = r"(?:https?://)?(?:www\.)?([\w-]+(?:\.[\w-]+)+)";

/// The host of the first link in `text`, if there is a link.
pub open spec fn domain_of(text: Seq<char>) -> Option<Seq<char>> {
    first_match_group(DOMAIN_PATTERN@, 1, text)
}

/// A text that was searched for a link and holds none.
#[derive(Debug, PartialEq, Eq)]
pub struct NoDomain {
    /// The text that was searched.
    pub text: String,
}

/// Calls `regex::Regex::new` on `pattern`, `Regex::captures` on the result
/// with `text`, and `Captures::get` with `group`. The contract gives what
/// comes back a name, `first_match_group`, and claims that it depends on the
/// three arguments alone; it says nothing of what the match is.
#[verifier::external_body]
fn match_group(pattern: &str, group: usize, text: &str) -> (found: Option<String>)
    ensures
        found.deep_view() == first_match_group(pattern@, group as nat, text@),
{
    let re = regex::Regex::new(pattern).ok()?;
    re.captures(text)?.get(group).map(|m| m.as_str().to_string())
}

/// What a search for a link comes to: the host that was found, or the text
/// in which none was.
pub fn domain_from_match(text: &str, found: Option<String>) -> (r: Result<String, NoDomain>)
    ensures
        match found {
            Some(host) => r == Ok::<String, NoDomain>(host),
            None => r is Err && r->Err_0.text@ == text@,
        },
{
    match found {
        Some(host) => Ok(host),
        None => Err(NoDomain { text: text.to_owned() }),
    }
}

/// The host of the first link in `text`, without scheme and without a leading
/// `www.`; a text that holds no link is handed back as the fault.
pub fn url_domain(text: &str) -> (r: Result<String, NoDomain>)
    ensures
        match domain_of(text@) {
            Some(host) => r is Ok && r->Ok_0@ == host,
            None => r is Err && r->Err_0.text@ == text@,
        },
{
    let found = match_group(DOMAIN_PATTERN, 1, text);
    domain_from_match(text, found)
}

} // verus!
