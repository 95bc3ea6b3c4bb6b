use vstd::prelude::*;
use rand::Rng;
use vstd::string::StringExecFns;
use crate::extract::{select_text, text_matches, texts_view};
use crate::text::{keep_paragraphs, kept_paragraphs, strings_view};
use crate::transport::{transport_message, TransportError};

verus! {

pub const TITLE_NOT_FOUND: &'static str = "title not found";

pub const INVALID_TITLE_SELECTOR: &'static str = "invalid title selector";

pub const INVALID_CONTENT_SELECTOR: &'static str = "invalid content selector";

/// What one fetch-and-parse unit reports for its chapter.
pub struct ChapterResult {
    pub index: usize,
    pub title: String,
    pub url: String,
    pub paragraphs: Vec<String>,
    pub success: bool,
    pub error: Option<String>,
    pub duration_ms: u64,
    /// Milliseconds since the Unix epoch.
    pub completed_at_ms: i64,
}

/// `r` is the failed result for chapter `index` at `url`, carrying `msg`,
/// which is never empty.
pub open spec fn failed_with(r: ChapterResult, index: usize, url: Seq<char>, msg: Seq<char>) -> bool {
    &&& r.index == index
    &&& r.url@ == url
    &&& !r.success
    &&& r.title@.len() == 0
    &&& r.paragraphs@.len() == 0
    &&& r.error matches Some(e) && e@ == msg
    &&& msg.len() > 0
}

/// `r` is the successful result for chapter `index` at `url`.
pub open spec fn succeeded_with(
    r: ChapterResult,
    index: usize,
    url: Seq<char>,
    title: Seq<char>,
    paragraphs: Seq<Seq<char>>,
) -> bool {
    &&& r.index == index
    &&& r.url@ == url
    &&& r.success
    &&& r.title@ == title
    &&& strings_view(r.paragraphs@) == paragraphs
    &&& r.error is None
}

/// The result for a page whose title matches are `titles` and whose
/// content matches are `paragraphs`: the first title match names the chapter
/// and blank paragraphs are dropped.
pub open spec fn parsed_as(
    r: ChapterResult,
    index: usize,
    url: Seq<char>,
    titles: Option<Seq<Seq<char>>>,
    paragraphs: Option<Seq<Seq<char>>>,
) -> bool {
    match titles {
        None => failed_with(r, index, url, INVALID_TITLE_SELECTOR@),
        Some(t) => if t.len() == 0 {
            failed_with(r, index, url, TITLE_NOT_FOUND@)
        } else {
            match paragraphs {
                None => failed_with(r, index, url, INVALID_CONTENT_SELECTOR@),
                Some(p) => succeeded_with(r, index, url, t[0], kept_paragraphs(p)),
            }
        },
    }
}

impl ChapterResult {
    pub fn success(
        index: usize,
        title: String,
        url: String,
        paragraphs: Vec<String>,
        duration_ms: u64,
        completed_at_ms: i64,
    ) -> (r: ChapterResult)
        ensures
            succeeded_with(r, index, url@, title@, strings_view(paragraphs@)),
            r.duration_ms == duration_ms,
            r.completed_at_ms == completed_at_ms,
    {
        ChapterResult {
            index,
            title,
            url,
            paragraphs,
            success: true,
            error: None,
            duration_ms,
            completed_at_ms,
        }
    }

    pub fn failure(
        index: usize,
        url: String,
        error: String,
        duration_ms: u64,
        completed_at_ms: i64,
    ) -> (r: ChapterResult)
        requires
            error@.len() > 0,
        ensures
            failed_with(r, index, url@, error@),
            r.duration_ms == duration_ms,
            r.completed_at_ms == completed_at_ms,
    {
        let r = ChapterResult {
            index,
            title: String::new(),
            url,
            paragraphs: Vec::new(),
            success: false,
            error: Some(error),
            duration_ms,
            completed_at_ms,
        };
        r
    }

    /// Stamps the result with the time its unit took and when it finished.
    pub fn record_timing(&mut self, duration_ms: u64, completed_at_ms: i64)
        ensures
            *final(self) == (ChapterResult { duration_ms, completed_at_ms, ..*old(self) }),
    {
        self.duration_ms = duration_ms;
        self.completed_at_ms = completed_at_ms;
    }
}

/// Builds the result for chapter `index` from the selector matches of its page.
pub fn chapter_from_matches(
    index: usize,
    url: String,
    titles: Option<Vec<String>>,
    paragraphs: Option<Vec<String>>,
) -> (r: ChapterResult)
    ensures
        parsed_as(r, index, url@, texts_view(titles), texts_view(paragraphs)),
{
    proof {
        reveal_strlit("invalid title selector");
        reveal_strlit("title not found");
        reveal_strlit("invalid content selector");
    }
    match titles {
        None => ChapterResult::failure(index, url, String::from_str(INVALID_TITLE_SELECTOR), 0, 0),
        Some(t) => {
            if t.len() == 0 {
                ChapterResult::failure(index, url, String::from_str(TITLE_NOT_FOUND), 0, 0)
            } else {
                match paragraphs {
                    None => ChapterResult::failure(
                        index,
                        url,
                        String::from_str(INVALID_CONTENT_SELECTOR),
                        0,
                        0,
                    ),
                    Some(p) => {
                        let kept = keep_paragraphs(&p);
                        assert(strings_view(p@) == texts_view(paragraphs)->Some_0);
                        ChapterResult::success(index, t[0].clone(), url, kept, 0, 0)
                    },
                }
            }
        },
    }
}

/// Turns a fetched chapter page (or the transport's failure) into the
/// chapter's result. Timing is left at zero for the caller to record.
pub fn chapter_from_page(
    index: usize,
    url: String,
    page: Result<String, TransportError>,
    title_selector: &str,
    content_selector: &str,
) -> (r: ChapterResult)
    ensures
        page is Err ==> failed_with(r, index, url@, transport_message(page->Err_0)),
        page is Err ==> r.error->Some_0@ != TITLE_NOT_FOUND@,
        page is Ok ==> parsed_as(
            r,
            index,
            url@,
            text_matches(page->Ok_0@, title_selector@),
            text_matches(page->Ok_0@, content_selector@),
        ),
{
    match page {
        Err(e) => {
            let msg = e.describe();
            proof {
                reveal_strlit("title not found");
                assert(msg@[0] != TITLE_NOT_FOUND@[0]);
            }
            ChapterResult::failure(index, url, msg, 0, 0)
        },
        Ok(html) => {
            let titles = select_text(html.as_str(), title_selector);
            let paragraphs = select_text(html.as_str(), content_selector);
            chapter_from_matches(index, url, titles, paragraphs)
        },
    }
}

/// Relies on rand's `thread_rng` and `Rng::gen_range`: a number below `n`.
#[verifier::external_body]
fn random_below(n: usize) -> (r: usize)
    requires
        n > 0,
    ensures
        r < n,
{
    rand::thread_rng().gen_range(0..n)
}

/// The client identity that a draw of `draw` selects from `pool`.
pub fn pick_user_agent(pool: &Vec<String>, draw: usize) -> (r: String)
    requires
        pool.len() > 0,
    ensures
        r@ == pool@[(draw % pool.len()) as int]@,
{
    pool[draw % pool.len()].clone()
}

/// A client identity drawn at random from `pool`.
pub fn choose_user_agent(pool: &Vec<String>) -> (r: String)
    requires
        pool.len() > 0,
    ensures
        exists|i: int| 0 <= i < pool.len() && r@ == #[trigger] pool@[i]@,
{
    let draw = random_below(pool.len());
    pick_user_agent(pool, draw)
}

} // verus!
