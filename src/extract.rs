use vstd::prelude::*;

verus! {

/// For a document and a CSS selector: `None` when the selector does not
/// parse, else, for each matching element in document order, the value of the
/// named attribute if the element carries it.
pub uninterp spec fn attribute_matches(html: Seq<char>, selector: Seq<char>, attr: Seq<char>) -> Option<Seq<Option<Seq<char>>>>;

/// For a document and a CSS selector: `None` when the selector does not
/// parse, else the concatenated inner text of each matching element, in
/// document order.
pub uninterp spec fn text_matches(html: Seq<char>, selector: Seq<char>) -> Option<Seq<Seq<char>>>;

pub open spec fn opt_string_view(o: Option<String>) -> Option<Seq<char>> {
    match o {
        Some(s) => Some(s@),
        None => None,
    }
}

pub open spec fn attribute_view(r: Option<Vec<Option<String>>>) -> Option<Seq<Option<Seq<char>>>> {
    match r {
        Some(v) => Some(v@.map_values(|o: Option<String>| opt_string_view(o))),
        None => None,
    }
}

pub open spec fn texts_view(r: Option<Vec<String>>) -> Option<Seq<Seq<char>>> {
    match r {
        Some(v) => Some(v@.map_values(|s: String| s@)),
        None => None,
    }
}

/// Relies on scraper's `Selector::parse`, `Html::parse_document`, `Html::select`
/// and `ElementRef::attr`: the matching elements in document order, each with
/// the attribute's value when present.
#[verifier::external_body]
pub(crate) fn select_attribute(html: &str, selector: &str, attr: &str) -> (r: Option<Vec<Option<String>>>)
    ensures
        attribute_view(r) == attribute_matches(html@, selector@, attr@),
{
    let sel = scraper::Selector::parse(selector).ok()?;
    let doc = scraper::Html::parse_document(html);
    Some(doc.select(&sel).map(|e| e.attr(attr).map(|a| a.to_string())).collect())
}

/// Relies on scraper's `Selector::parse`, `Html::parse_document`, `Html::select`
/// and `ElementRef::text`: the text of each matching element, its text nodes
/// joined, in document order.
#[verifier::external_body]
pub(crate) fn select_text(html: &str, selector: &str) -> (r: Option<Vec<String>>)
    ensures
        texts_view(r) == text_matches(html@, selector@),
{
    let sel = scraper::Selector::parse(selector).ok()?;
    let doc = scraper::Html::parse_document(html);
    Some(doc.select(&sel).map(|e| e.text().collect::<Vec<_>>().join("")).collect())
}

} // verus!
