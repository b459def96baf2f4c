//! Single-element extraction from parsed markup, and the marketplace
//! product fields read from it.
//!
//! A lookup selects the first element that matches a selector and reads its
//! first child, which must be a text node.
use vstd::prelude::*;
use crate::errors::CssError;

verus! {

/// What a selector lookup found.
#[derive(Debug, Clone, PartialEq, Eq)]
pub enum CssLookup {
    /// The selector did not parse; the parser's message.
    InvalidSelector(String),
    /// No element matched.
    NoMatch,
    /// The first match has no child.
    NoChild,
    /// The first match's first child is this text node.
    Text(String),
    /// The first match's first child is not a text node.
    NotText,
}

pub open spec fn no_match_message() -> Seq<char> {
    "Failed to find Css Node."@
}

pub open spec fn no_child_message() -> Seq<char> {
    "Failed to find Css element."@
}

pub open spec fn not_text_message() -> Seq<char> {
    "Invalid Node found."@
}

/// The text a lookup yields, or the error message it fails with.
pub open spec fn lookup_text(l: CssLookup) -> Result<Seq<char>, Seq<char>> {
    match l {
        CssLookup::InvalidSelector(m) => Err(m@),
        CssLookup::NoMatch => Err(no_match_message()),
        CssLookup::NoChild => Err(no_child_message()),
        CssLookup::NotText => Err(not_text_message()),
        CssLookup::Text(t) => Ok(t@),
    }
}

/// The text of the first child of the first match, or a distinct error for
/// a bad selector, no match, no child, or a child that is not text.
pub fn find_css_text(lookup: CssLookup) -> (r: Result<String, CssError>)
    ensures
        match lookup_text(lookup) {
            Ok(t) => r matches Ok(s) && s@ == t,
            Err(m) => r matches Err(e) && e@ == m,
        },
{
    match lookup {
        CssLookup::InvalidSelector(m) => Err(CssError::new(m.as_str())),
        CssLookup::NoMatch => Err(CssError::new("Failed to find Css Node.")),
        CssLookup::NoChild => Err(CssError::new("Failed to find Css element.")),
        CssLookup::NotText => Err(CssError::new("Invalid Node found.")),
        CssLookup::Text(t) => Ok(t),
    }
}

#[verifier::external_type_specification]
#[verifier::external_body]
pub struct ExHtml(scraper::Html);

/// Whether a text is a valid CSS selector.
pub uninterp spec fn selector_parses(s: Seq<char>) -> bool;

/// What the first element of `document` that `selector` matches has as its
/// first child.
pub uninterp spec fn first_child_lookup(document: scraper::Html, selector: Seq<char>) -> CssLookup;

/// Relies on `scraper::Selector::parse`, `scraper::Html::select` (its first
/// match in document order), `first_child` and `value`. A parse error is
/// rendered with its derived `Debug`.
#[verifier::external_body]
fn lookup_first_child(document: &scraper::Html, selector_str: &str) -> (r: CssLookup)
    ensures
        r is InvalidSelector <==> !selector_parses(selector_str@),
        selector_parses(selector_str@) ==> r == first_child_lookup(*document, selector_str@),
{
    let selector = match scraper::Selector::parse(selector_str) {
        Ok(s) => s,
        Err(e) => return CssLookup::InvalidSelector(format!("{:?}", e)),
    };
    let element = match document.select(&selector).next() {
        Some(e) => e,
        None => return CssLookup::NoMatch,
    };
    match element.first_child() {
        None => CssLookup::NoChild,
        Some(child) => match child.value() {
            scraper::Node::Text(txt) => CssLookup::Text(txt.text.to_string()),
            _ => CssLookup::NotText,
        },
    }
}

/// Looks up the first element of `document` that `selector_str` matches and
/// describes its first child; a selector that does not parse is reported
/// with the parser's error.
pub fn find_css_node(document: &scraper::Html, selector_str: &str) -> (r: CssLookup)
    ensures
        r is InvalidSelector <==> !selector_parses(selector_str@),
        selector_parses(selector_str@) ==> r == first_child_lookup(*document, selector_str@),
{
    lookup_first_child(document, selector_str)
}

/// Whitespace as `char::is_whitespace` has it: the Unicode `White_Space`
/// property.
pub open spec fn is_white_space(c: char) -> bool {
    ('\u{9}' <= c && c <= '\u{d}') || c == ' ' || c == '\u{85}' || c == '\u{a0}' || c
        == '\u{1680}' || ('\u{2000}' <= c && c <= '\u{200a}') || c == '\u{2028}' || c
        == '\u{2029}' || c == '\u{202f}' || c == '\u{205f}' || c == '\u{3000}'
}

/// A text without its leading whitespace.
pub open spec fn trim_start(s: Seq<char>) -> Seq<char>
    decreases s.len(),
{
    if s.len() > 0 && is_white_space(s[0]) {
        trim_start(s.drop_first())
    } else {
        s
    }
}

/// A text without its trailing whitespace.
pub open spec fn trim_end(s: Seq<char>) -> Seq<char>
    decreases s.len(),
{
    if s.len() > 0 && is_white_space(s.last()) {
        trim_end(s.drop_last())
    } else {
        s
    }
}

/// A text without its leading and trailing whitespace.
pub open spec fn trimmed(s: Seq<char>) -> Seq<char> {
    trim_end(trim_start(s))
}

/// Relies on `str::trim`: the text without leading and trailing characters
/// that have the `White_Space` property.
#[verifier::external_body]
fn trim(s: &str) -> (r: String)
    ensures
        r@ == trimmed(s@),
{
    s.trim().to_string()
}

/// A text with every `$` removed.
pub open spec fn without_dollar(s: Seq<char>) -> Seq<char> {
    s.filter(|c: char| c != '$')
}

/// Relies on `str::replace`: every match of the pattern `"$"` is replaced by
/// the empty text, that is, removed.
#[verifier::external_body]
fn remove_dollar(s: &str) -> (r: String)
    ensures
        r@ == without_dollar(s@),
{
    s.replace("$", "")
}

/// Selector of the product title.
pub const PRODUCT_TITLE_SELECTOR: &'static str = "#productTitle";

/// Selector of the product price text (such as `$75.99`).
pub const PRODUCT_PRICE_SELECTOR: &'static str = ".a-offscreen";

/// The product title: the looked-up text, trimmed.
pub fn get_product_title(lookup: CssLookup) -> (r: Result<String, CssError>)
    ensures
        match lookup_text(lookup) {
            Ok(t) => r matches Ok(s) && s@ == trimmed(t),
            Err(m) => r matches Err(e) && e@ == m,
        },
{
    let text = find_css_text(lookup)?;
    Ok(trim(text.as_str()))
}

/// The number text of a price: trimmed, with the currency symbol `$` removed.
pub fn price_number_text(raw: &str) -> (r: String)
    ensures
        r@ == without_dollar(trimmed(raw@)),
{
    let t = trim(raw);
    remove_dollar(t.as_str())
}

/// The number text of the product price, ready to be read as a number.
pub fn get_product_price_text(lookup: CssLookup) -> (r: Result<String, CssError>)
    ensures
        match lookup_text(lookup) {
            Ok(t) => r matches Ok(s) && s@ == without_dollar(trimmed(t)),
            Err(m) => r matches Err(e) && e@ == m,
        },
{
    let text = find_css_text(lookup)?;
    Ok(price_number_text(text.as_str()))
}

} // verus!
