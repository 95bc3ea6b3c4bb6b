use vstd::prelude::*;
use vstd::string::StrSliceExecFns;
use vstd::string::StringExecFns;
use crate::extract::{attribute_matches, attribute_view, select_attribute};
use crate::transport::TransportError;

verus! {

/// Where one chapter is fetched from and where it stands in the document.
pub struct ChapterLocator {
    pub index: usize,
    pub url: String,
}

/// Why a catalog yields no chapters; each of these ends the run.
#[derive(PartialEq, Eq, Debug)]
pub enum CatalogError {
    /// The catalog page could not be fetched.
    Transport(TransportError),
    /// The chapter link selector is not a valid CSS selector.
    InvalidSelector,
    /// The catalog holds no chapter link.
    NoLinks,
}

pub open spec fn is_ascii_letter(c: char) -> bool {
    ('a' <= c && c <= 'z') || ('A' <= c && c <= 'Z')
}

/// A character that may follow the first letter of a URL scheme.
pub open spec fn is_scheme_char(c: char) -> bool {
    is_ascii_letter(c) || ('0' <= c && c <= '9') || c == '+' || c == '-' || c == '.'
}

/// `href` opens with a URL scheme: a letter, then letters, digits, `+`, `-`
/// or `.`, then `:` (as in `http:`, `https:`, `ftp:`).
pub open spec fn has_scheme(href: Seq<char>) -> bool {
    exists|k: int| scheme_ends_at(href, k)
}

/// `href[0..k]` is a scheme and `href[k]` is the `:` that closes it.
pub open spec fn scheme_ends_at(href: Seq<char>, k: int) -> bool {
    &&& 1 <= k < href.len()
    &&& href[k] == ':'
    &&& is_ascii_letter(href[0])
    &&& forall|j: int| 1 <= j < k ==> is_scheme_char(#[trigger] href[j])
}

/// Whether `href` opens with a URL scheme.
pub fn starts_with_scheme(href: &str) -> (r: bool)
    ensures
        r == has_scheme(href@),
{
    let n = href.unicode_len();
    if n == 0 {
        return false;
    }
    let c0 = href.get_char(0);
    if !(('a' <= c0 && c0 <= 'z') || ('A' <= c0 && c0 <= 'Z')) {
        return false;
    }
    let mut i: usize = 1;
    while i < n
        invariant
            n == href@.len(),
            1 <= i <= n,
            is_ascii_letter(href@[0]),
            forall|j: int| 1 <= j < i ==> is_scheme_char(#[trigger] href@[j]),
        decreases n - i,
    {
        let c = href.get_char(i);
        if !(('a' <= c && c <= 'z') || ('A' <= c && c <= 'Z') || ('0' <= c && c <= '9') || c
            == '+' || c == '-' || c == '.') {
            proof {
                if has_scheme(href@) {
                    let k = choose|k: int| scheme_ends_at(href@, k);
                    if k > i {
                        assert(is_scheme_char(href@[i as int]));
                    }
                }
            }
            proof {
                if c == ':' {
                    assert(scheme_ends_at(href@, i as int));
                }
            }
            return c == ':';
        }
        i = i + 1;
    }
    proof {
        if has_scheme(href@) {
            let k = choose|k: int| scheme_ends_at(href@, k);
            assert(is_scheme_char(href@[k]));
        }
    }
    false
}

/// An absolute link passes through; a relative one is joined to the base
/// address after one leading `/` is stripped.
pub open spec fn normalized(href: Seq<char>, base: Seq<char>) -> Seq<char> {
    if has_scheme(href) {
        href
    } else if href.len() > 0 && href[0] == '/' {
        base + href.skip(1)
    } else {
        base + href
    }
}

/// The attribute values that are present, in their order.
pub open spec fn present_links(v: Seq<Option<Seq<char>>>) -> Seq<Seq<char>>
    decreases v.len(),
{
    if v.len() == 0 {
        Seq::empty()
    } else {
        let rest = present_links(v.drop_last());
        match v.last() {
            Some(h) => rest.push(h),
            None => rest,
        }
    }
}

/// `locs` numbers `links` densely from zero, in order, each made absolute.
pub open spec fn locates(locs: Seq<ChapterLocator>, links: Seq<Seq<char>>, base: Seq<char>) -> bool {
    &&& locs.len() == links.len()
    &&& forall|i: int|
        0 <= i < locs.len() ==> (#[trigger] locs[i]).index == i && locs[i].url@ == normalized(
            links[i],
            base,
        )
}

/// The outcome of resolving a catalog whose link matches are `m`.
pub open spec fn resolves_to(
    r: Result<Vec<ChapterLocator>, CatalogError>,
    m: Option<Seq<Option<Seq<char>>>>,
    base: Seq<char>,
) -> bool {
    match m {
        None => r == Err::<Vec<ChapterLocator>, CatalogError>(CatalogError::InvalidSelector),
        Some(v) => if present_links(v).len() == 0 {
            r == Err::<Vec<ChapterLocator>, CatalogError>(CatalogError::NoLinks)
        } else {
            r matches Ok(locs) && locates(locs@, present_links(v), base)
        },
    }
}

/// Makes a link target absolute against `base_url`.
pub fn normalize_url(href: &str, base_url: &str) -> (r: String)
    ensures
        r@ == normalized(href@, base_url@),
{
    if starts_with_scheme(href) {
        return String::from_str(href);
    }
    let n = href.unicode_len();
    let mut out = String::from_str(base_url);
    if n > 0 && href.get_char(0) == '/' {
        out.append(href.substring_char(1, n));
        assert(href@.subrange(1, n as int) =~= href@.skip(1));
    } else {
        out.append(href);
    }
    out
}

/// Numbers the chapter links of a catalog in document order.
pub fn locators_from_links(links: &Vec<String>, base_url: &str) -> (r: Vec<ChapterLocator>)
    ensures
        locates(r@, links@.map_values(|s: String| s@), base_url@),
{
    let mut out: Vec<ChapterLocator> = Vec::new();
    let mut i: usize = 0;
    while i < links.len()
        invariant
            i <= links.len(),
            out.len() == i,
            forall|k: int|
                0 <= k < i ==> (#[trigger] out@[k]).index == k && out@[k].url@ == normalized(
                    links@[k]@,
                    base_url@,
                ),
        decreases links.len() - i,
    {
        let url = normalize_url(links[i].as_str(), base_url);
        out.push(ChapterLocator { index: i, url });
        i = i + 1;
    }
    out
}

/// Turns the link matches of a catalog page into chapter locators: an
/// invalid selector and a catalog without links are both errors.
pub fn locators_from_matches(matches: Option<Vec<Option<String>>>, base_url: &str) -> (r: Result<
    Vec<ChapterLocator>,
    CatalogError,
>)
    ensures
        resolves_to(r, attribute_view(matches), base_url@),
{
    match matches {
        None => Err(CatalogError::InvalidSelector),
        Some(v) => {
            let ghost mv = v@.map_values(|o: Option<String>| crate::extract::opt_string_view(o));
            let mut links: Vec<String> = Vec::new();
            let mut i: usize = 0;
            while i < v.len()
                invariant
                    i <= v.len(),
                    mv == v@.map_values(|o: Option<String>| crate::extract::opt_string_view(o)),
                    links@.map_values(|s: String| s@) == present_links(mv.take(i as int)),
                decreases v.len() - i,
            {
                proof {
                    assert(mv.take(i as int + 1).drop_last() =~= mv.take(i as int));
                }
                match &v[i] {
                    Some(h) => {
                        let ghost prev = links@;
                        links.push(h.clone());
                        assert(links@.map_values(|s: String| s@) =~= prev.map_values(
                            |s: String| s@,
                        ).push(h@));
                    },
                    None => {},
                }
                i = i + 1;
            }
            assert(mv.take(v.len() as int) =~= mv);
            if links.len() == 0 {
                Err(CatalogError::NoLinks)
            } else {
                Ok(locators_from_links(&links, base_url))
            }
        },
    }
}

/// Resolves a fetched catalog page (or the transport's error) into the
/// ordered chapter locators.
pub fn resolve_catalog(page: Result<String, TransportError>, link_selector: &str, base_url: &str) -> (r:
    Result<Vec<ChapterLocator>, CatalogError>)
    ensures
        page is Err ==> r == Err::<Vec<ChapterLocator>, CatalogError>(
            CatalogError::Transport(page->Err_0),
        ),
        page is Ok ==> resolves_to(
            r,
            attribute_matches(page->Ok_0@, link_selector@, seq!['h', 'r', 'e', 'f']),
            base_url@,
        ),
{
    match page {
        Err(e) => Err(CatalogError::Transport(e)),
        Ok(html) => {
            let attr = "href";
            proof {
                reveal_strlit("href");
                assert(attr@ =~= seq!['h', 'r', 'e', 'f']);
            }
            let matches = select_attribute(html.as_str(), link_selector, attr);
            locators_from_matches(matches, base_url)
        },
    }
}

} // verus!
