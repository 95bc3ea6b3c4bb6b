use vstd::prelude::*;

verus! {

/// Number of chapter fetches allowed in flight at once.
pub const DEFAULT_CONCURRENT_LIMIT: usize = 15;

pub const DEFAULT_BASE_URL: &'static str = "https://www.alicesw.com/";

pub const DEFAULT_CATALOG_URL: &'static str = "https://www.alicesw.com/other/chapters/id/47686.html";

pub const DEFAULT_OUTPUT_FILE: &'static str = "output.txt";

pub const DEFAULT_TITLE_SELECTOR: &'static str = ".j_chapterName";

pub const DEFAULT_CONTENT_SELECTOR: &'static str = ".read-content p";

pub const DEFAULT_CHAPTER_LINK_SELECTOR: &'static str = ".mulu_list li a";

pub fn default_concurrent_limit() -> (r: usize)
    ensures
        r == DEFAULT_CONCURRENT_LIMIT,
        r > 0,
{
    DEFAULT_CONCURRENT_LIMIT
}

pub fn default_base_url() -> (r: String)
    ensures
        r@ == DEFAULT_BASE_URL@,
{
    String::from_str(DEFAULT_BASE_URL)
}

pub fn default_catalog_url() -> (r: String)
    ensures
        r@ == DEFAULT_CATALOG_URL@,
{
    String::from_str(DEFAULT_CATALOG_URL)
}

pub fn default_title_selector() -> (r: String)
    ensures
        r@ == DEFAULT_TITLE_SELECTOR@,
{
    String::from_str(DEFAULT_TITLE_SELECTOR)
}

pub fn default_content_selector() -> (r: String)
    ensures
        r@ == DEFAULT_CONTENT_SELECTOR@,
{
    String::from_str(DEFAULT_CONTENT_SELECTOR)
}

pub fn default_chapter_link_selector() -> (r: String)
    ensures
        r@ == DEFAULT_CHAPTER_LINK_SELECTOR@,
{
    String::from_str(DEFAULT_CHAPTER_LINK_SELECTOR)
}

pub fn default_output_file() -> (r: String)
    ensures
        r@ == DEFAULT_OUTPUT_FILE@,
{
    String::from_str(DEFAULT_OUTPUT_FILE)
}

/// The settings of one run. Read once before the crawl starts and never
/// changed afterwards.
pub struct Config {
    pub concurrency_limit: usize,
    pub base_url: String,
    pub catalog_url: String,
    pub title_selector: String,
    pub content_selector: String,
    pub chapter_link_selector: String,
    pub output_path: String,
}

impl Config {
    /// A usable configuration admits at least one fetch at a time.
    pub open spec fn wf(&self) -> bool {
        self.concurrency_limit > 0
    }

    pub open spec fn is_default(&self) -> bool {
        &&& self.concurrency_limit == DEFAULT_CONCURRENT_LIMIT
        &&& self.base_url@ == DEFAULT_BASE_URL@
        &&& self.catalog_url@ == DEFAULT_CATALOG_URL@
        &&& self.title_selector@ == DEFAULT_TITLE_SELECTOR@
        &&& self.content_selector@ == DEFAULT_CONTENT_SELECTOR@
        &&& self.chapter_link_selector@ == DEFAULT_CHAPTER_LINK_SELECTOR@
        &&& self.output_path@ == DEFAULT_OUTPUT_FILE@
    }
}

impl Default for Config {
    fn default() -> (r: Config)
        ensures
            r.is_default(),
            r.wf(),
    {
        Config {
            concurrency_limit: default_concurrent_limit(),
            base_url: default_base_url(),
            catalog_url: default_catalog_url(),
            title_selector: default_title_selector(),
            content_selector: default_content_selector(),
            chapter_link_selector: default_chapter_link_selector(),
            output_path: default_output_file(),
        }
    }
}

/// The client identity strings that fetches choose from.
pub fn default_user_agents() -> (r: Vec<String>)
    ensures
        r.len() == 10,
        forall|i: int| 0 <= i < r.len() ==> (#[trigger] r@[i])@.len() > 0,
{
    let mut v: Vec<String> = Vec::new();
    proof {
        reveal_strlit("Mozilla/5.0 (Windows NT 10.0; Win64; x64) AppleWebKit/537.36 (KHTML, like Gecko) Chrome/120.0.0.0 Safari/537.36");
    }
    v.push(String::from_str("Mozilla/5.0 (Windows NT 10.0; Win64; x64) AppleWebKit/537.36 (KHTML, like Gecko) Chrome/120.0.0.0 Safari/537.36"));
    proof {
        reveal_strlit("Mozilla/5.0 (Windows NT 10.0; Win64; x64) AppleWebKit/537.36 (KHTML, like Gecko) Chrome/119.0.0.0 Safari/537.36");
    }
    v.push(String::from_str("Mozilla/5.0 (Windows NT 10.0; Win64; x64) AppleWebKit/537.36 (KHTML, like Gecko) Chrome/119.0.0.0 Safari/537.36"));
    proof {
        reveal_strlit("Mozilla/5.0 (Macintosh; Intel Mac OS X 10_15_7) AppleWebKit/537.36 (KHTML, like Gecko) Chrome/120.0.0.0 Safari/537.36");
    }
    v.push(String::from_str("Mozilla/5.0 (Macintosh; Intel Mac OS X 10_15_7) AppleWebKit/537.36 (KHTML, like Gecko) Chrome/120.0.0.0 Safari/537.36"));
    proof {
        reveal_strlit("Mozilla/5.0 (Windows NT 10.0; Win64; x64) AppleWebKit/537.36 (KHTML, like Gecko) Chrome/118.0.0.0 Safari/537.36");
    }
    v.push(String::from_str("Mozilla/5.0 (Windows NT 10.0; Win64; x64) AppleWebKit/537.36 (KHTML, like Gecko) Chrome/118.0.0.0 Safari/537.36"));
    proof {
        reveal_strlit("Mozilla/5.0 (Macintosh; Intel Mac OS X 10_15_7) AppleWebKit/537.36 (KHTML, like Gecko) Chrome/119.0.0.0 Safari/537.36");
    }
    v.push(String::from_str("Mozilla/5.0 (Macintosh; Intel Mac OS X 10_15_7) AppleWebKit/537.36 (KHTML, like Gecko) Chrome/119.0.0.0 Safari/537.36"));
    proof {
        reveal_strlit("Mozilla/5.0 (Windows NT 10.0; Win64; x64) AppleWebKit/537.36 (KHTML, like Gecko) Chrome/117.0.0.0 Safari/537.36");
    }
    v.push(String::from_str("Mozilla/5.0 (Windows NT 10.0; Win64; x64) AppleWebKit/537.36 (KHTML, like Gecko) Chrome/117.0.0.0 Safari/537.36"));
    proof {
        reveal_strlit("Mozilla/5.0 (Macintosh; Intel Mac OS X 10_15_7) AppleWebKit/537.36 (KHTML, like Gecko) Chrome/116.0.0.0 Safari/537.36");
    }
    v.push(String::from_str("Mozilla/5.0 (Macintosh; Intel Mac OS X 10_15_7) AppleWebKit/537.36 (KHTML, like Gecko) Chrome/116.0.0.0 Safari/537.36"));
    proof {
        reveal_strlit("Mozilla/5.0 (Windows NT 10.0; Win64; x64) AppleWebKit/537.36 (KHTML, like Gecko) Edge/120.0.0.0");
    }
    v.push(String::from_str("Mozilla/5.0 (Windows NT 10.0; Win64; x64) AppleWebKit/537.36 (KHTML, like Gecko) Edge/120.0.0.0"));
    proof {
        reveal_strlit("Mozilla/5.0 (Macintosh; Intel Mac OS X 10_15_7) AppleWebKit/537.36 (KHTML, like Gecko) Edge/119.0.0.0");
    }
    v.push(String::from_str("Mozilla/5.0 (Macintosh; Intel Mac OS X 10_15_7) AppleWebKit/537.36 (KHTML, like Gecko) Edge/119.0.0.0"));
    proof {
        reveal_strlit("Mozilla/5.0 (X11; Linux x86_64) AppleWebKit/537.36 (KHTML, like Gecko) Chrome/120.0.0.0 Safari/537.36");
    }
    v.push(String::from_str("Mozilla/5.0 (X11; Linux x86_64) AppleWebKit/537.36 (KHTML, like Gecko) Chrome/120.0.0.0 Safari/537.36"));
    v
}

} // verus!
