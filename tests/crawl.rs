use novel_crawler::catalog::{
    locators_from_links, normalize_url, resolve_catalog, starts_with_scheme, CatalogError,
};
use novel_crawler::transport::TransportError;
use novel_crawler::collector::{CollectStatus, Collector, Event};
use novel_crawler::config::{
    default_base_url, default_catalog_url, default_chapter_link_selector, default_concurrent_limit,
    default_content_selector, default_output_file, default_title_selector, default_user_agents,
    Config,
};
use novel_crawler::dispatch::{Dispatcher, PermitPool};
use novel_crawler::reassemble::{reassemble, slot_positions, tally, ReassembleError};
use novel_crawler::text::{is_blank, keep_paragraphs, render_chapter};
use novel_crawler::worker::{
    chapter_from_matches, chapter_from_page, choose_user_agent, pick_user_agent, ChapterResult,
};

fn strings(v: &[&str]) -> Vec<String> {
    v.iter().map(|s| s.to_string()).collect()
}

fn ok_result(index: usize, title: &str, paragraphs: &[&str]) -> ChapterResult {
    ChapterResult::success(index, title.to_string(), format!("u{}", index), strings(paragraphs), 5, 0)
}

fn failed_result(index: usize) -> ChapterResult {
    ChapterResult::failure(index, format!("u{}", index), "title not found".to_string(), 5, 0)
}

fn plan_text(results: &Vec<ChapterResult>, total: usize) -> String {
    let plan = reassemble(results, total).unwrap();
    plan.chapters.iter().map(|c| c.text.clone()).collect::<Vec<_>>().join("")
}

#[test]
fn defaults_match_documented_values() {
    assert_eq!(default_concurrent_limit(), 15);
    assert_eq!(default_output_file(), "output.txt");
    assert_eq!(default_base_url(), "https://www.alicesw.com/");
    assert_eq!(default_catalog_url(), "https://www.alicesw.com/other/chapters/id/47686.html");
    assert_eq!(default_title_selector(), ".j_chapterName");
    assert_eq!(default_content_selector(), ".read-content p");
    assert_eq!(default_chapter_link_selector(), ".mulu_list li a");
    let c = Config::default();
    assert_eq!(c.concurrency_limit, 15);
    assert_eq!(c.output_path, "output.txt");
    let agents = default_user_agents();
    assert_eq!(agents.len(), 10);
    assert!(agents.iter().all(|a| !a.is_empty()));
}

#[test]
fn normalize_mixed_links() {
    assert_eq!(normalize_url("/c1", "https://h/"), "https://h/c1");
    assert_eq!(normalize_url("http://x/c2", "https://h/"), "http://x/c2");
    assert_eq!(normalize_url("https://y/c", "https://h/"), "https://y/c");
    assert_eq!(normalize_url("c4", "https://h/"), "https://h/c4");
    assert_eq!(normalize_url("//c5", "https://h/"), "https://h//c5");
    assert_eq!(normalize_url("httpdoc/c1.html", "https://h/"), "https://h/httpdoc/c1.html");
    assert_eq!(normalize_url("/httpx", "https://h/"), "https://h/httpx");
    assert_eq!(normalize_url("ftp://f/c6", "https://h/"), "ftp://f/c6");
}

#[test]
fn scheme_detection() {
    assert!(starts_with_scheme("http://x"));
    assert!(starts_with_scheme("https://x"));
    assert!(starts_with_scheme("svn+ssh://x"));
    assert!(starts_with_scheme("mailto:a@b"));
    assert!(!starts_with_scheme("httpdoc/c1.html"));
    assert!(!starts_with_scheme("http"));
    assert!(!starts_with_scheme(":x"));
    assert!(!starts_with_scheme("1a:x"));
    assert!(!starts_with_scheme("a/b:c"));
    assert!(!starts_with_scheme(""));
}

#[test]
fn catalog_scenario_three_links() {
    let links = strings(&["/c1", "http://x/c2", "/c3"]);
    let locs = locators_from_links(&links, "https://h/");
    let urls: Vec<&str> = locs.iter().map(|l| l.url.as_str()).collect();
    assert_eq!(urls, vec!["https://h/c1", "http://x/c2", "https://h/c3"]);
    let idx: Vec<usize> = locs.iter().map(|l| l.index).collect();
    assert_eq!(idx, vec![0, 1, 2]);
}

#[test]
fn catalog_page_resolves_in_document_order() {
    let html = r#"<html><body><ul class="mulu_list">
        <li><a href="/c1">One</a></li>
        <li><a>no target</a></li>
        <li><a href="http://x/c2">Two</a></li>
        <li><a href="/c3">Three</a></li>
    </ul></body></html>"#;
    let locs = resolve_catalog(Ok(html.to_string()), ".mulu_list li a", "https://h/").unwrap();
    assert_eq!(locs.len(), 3);
    let urls: Vec<&str> = locs.iter().map(|l| l.url.as_str()).collect();
    assert_eq!(urls, vec!["https://h/c1", "http://x/c2", "https://h/c3"]);
    for (i, l) in locs.iter().enumerate() {
        assert_eq!(l.index, i);
    }
}

#[test]
fn catalog_failures_are_fatal_errors() {
    let r = resolve_catalog(Err(TransportError::Send("connection refused".to_string())), "a", "https://h/");
    assert_eq!(r.err(), Some(CatalogError::Transport(TransportError::Send("connection refused".to_string()))));
    let r = resolve_catalog(Ok("<p>nothing</p>".to_string()), ".mulu_list li a", "https://h/");
    assert_eq!(r.err(), Some(CatalogError::NoLinks));
    let r = resolve_catalog(Ok("<a href='/x'>x</a>".to_string()), "[[[", "https://h/");
    assert_eq!(r.err(), Some(CatalogError::InvalidSelector));
}

#[test]
fn blank_detection_trims_unicode_whitespace() {
    assert!(is_blank(""));
    assert!(is_blank("  \t\r\n"));
    assert!(is_blank("\u{3000}\u{a0}"));
    assert!(!is_blank(" a "));
}

#[test]
fn blank_paragraphs_are_dropped() {
    let kept = keep_paragraphs(&strings(&["", "Hello", "  "]));
    assert_eq!(kept, vec!["Hello".to_string()]);
}

#[test]
fn page_with_blank_paragraphs_writes_only_text() {
    let html = r#"<h1 class="j_chapterName">Chapter One</h1>
        <div class="read-content"><p></p><p>Hello</p><p>  </p></div>"#;
    let r = chapter_from_page(0, "u".to_string(), Ok(html.to_string()), ".j_chapterName", ".read-content p");
    assert!(r.success);
    assert_eq!(r.title, "Chapter One");
    assert_eq!(r.paragraphs, vec!["Hello".to_string()]);
    let plan = reassemble(&vec![r], 1).unwrap();
    assert_eq!(plan.chapters[0].text, "Chapter One\nHello\n");
}

#[test]
fn missing_title_is_distinct_failure() {
    let r = chapter_from_page(1, "u1".to_string(), Ok("<p>body</p>".to_string()), ".j_chapterName", "p");
    assert!(!r.success);
    assert_eq!(r.index, 1);
    assert_eq!(r.error.as_deref(), Some("title not found"));
    assert!(r.title.is_empty() && r.paragraphs.is_empty());
    let t = chapter_from_page(1, "u1".to_string(), Err(TransportError::Send("timeout".to_string())), "h1", "p");
    assert_eq!(t.error.as_deref(), Some("Send failed: timeout"));
    assert!(!t.success && t.index == 1);
    let t = chapter_from_page(1, "u1".to_string(), Err(TransportError::Body(String::new())), "h1", "p");
    assert_eq!(t.error.as_deref(), Some("Request failed: "));
    let bad = chapter_from_page(2, "u2".to_string(), Ok("<h1>t</h1>".to_string()), "[[", "p");
    assert_eq!(bad.error.as_deref(), Some("invalid title selector"));
    let bad = chapter_from_page(2, "u2".to_string(), Ok("<h1>t</h1>".to_string()), "h1", "[[");
    assert_eq!(bad.error.as_deref(), Some("invalid content selector"));
}

#[test]
fn first_title_match_names_chapter() {
    let r = chapter_from_matches(3, "u".to_string(), Some(strings(&["A", "B"])), Some(strings(&["x", " "])));
    assert!(r.success);
    assert_eq!(r.title, "A");
    assert_eq!(r.paragraphs, vec!["x".to_string()]);
    let html = "<h1>Part <b>one</b></h1><p>a</p><p>b</p>";
    let r = chapter_from_page(0, "u".to_string(), Ok(html.to_string()), "h1", "p");
    assert_eq!(r.title, "Part one");
    assert_eq!(r.paragraphs, strings(&["a", "b"]));
}

#[test]
fn failed_middle_chapter_is_skipped_and_counted() {
    let page = r#"<h1 class="j_chapterName">T</h1>"#;
    let r0 = chapter_from_page(0, "a".to_string(), Ok(page.to_string()), ".j_chapterName", "p");
    let r1 = chapter_from_page(1, "b".to_string(), Ok("<div></div>".to_string()), ".j_chapterName", "p");
    let r2 = chapter_from_page(2, "c".to_string(), Ok(page.to_string()), ".j_chapterName", "p");
    assert_eq!(r1.error.as_deref(), Some("title not found"));
    let results = vec![r2, r1, r0];
    let plan = reassemble(&results, 3).unwrap();
    let order: Vec<usize> = plan.chapters.iter().map(|c| c.index).collect();
    assert_eq!(order, vec![0, 2]);
    assert_eq!(plan.skipped, 1);
    let summary = tally(&plan, &vec![true, true]);
    assert_eq!(summary.success_count, 2);
    assert_eq!(summary.failure_count, 1);
}

#[test]
fn reassembly_ignores_completion_order() {
    let in_order = vec![ok_result(0, "A", &["a1"]), ok_result(1, "B", &["b1", "b2"]), ok_result(2, "C", &[])];
    let shuffled = vec![ok_result(2, "C", &[]), ok_result(0, "A", &["a1"]), ok_result(1, "B", &["b1", "b2"])];
    let expected = "A\na1\nB\nb1\nb2\nC\n";
    assert_eq!(plan_text(&in_order, 3), expected);
    assert_eq!(plan_text(&shuffled, 3), expected);
}

#[test]
fn reassembly_twice_is_identical() {
    let results = vec![ok_result(1, "B", &["b"]), failed_result(0), ok_result(2, "C", &["c"])];
    let first = plan_text(&results, 3);
    let second = plan_text(&results, 3);
    assert_eq!(first, second);
    assert_eq!(first, "B\nb\nC\nc\n");
}

#[test]
fn reassembly_of_partial_set() {
    let results = vec![ok_result(3, "D", &["d"]), ok_result(0, "A", &[])];
    let plan = reassemble(&results, 5).unwrap();
    assert_eq!(plan.chapters.len(), 2);
    assert_eq!(plan.skipped, 0);
    assert_eq!(plan.chapters[1].index, 3);
    let slots = slot_positions(&results, 5).unwrap();
    assert_eq!(slots, vec![Some(1), None, None, Some(0), None]);
    let empty = reassemble(&Vec::new(), 0).unwrap();
    assert!(empty.chapters.is_empty());
}

#[test]
fn reassembly_rejects_bad_indices() {
    let dup = vec![ok_result(0, "A", &[]), ok_result(0, "B", &[])];
    assert_eq!(reassemble(&dup, 2).err(), Some(ReassembleError::DuplicateIndex));
    let far = vec![ok_result(0, "A", &[]), ok_result(0, "B", &[]), ok_result(7, "C", &[])];
    assert_eq!(reassemble(&far, 2).err(), Some(ReassembleError::IndexOutOfRange));
}

#[test]
fn tally_counts_write_failures() {
    let results = vec![ok_result(0, "A", &[]), ok_result(1, "B", &[]), failed_result(2)];
    let plan = reassemble(&results, 3).unwrap();
    let s = tally(&plan, &vec![true, false]);
    assert_eq!(s.success_count, 1);
    assert_eq!(s.failure_count, 2);
}

#[test]
fn render_chapter_lines() {
    assert_eq!(render_chapter(&"T".to_string(), &strings(&["p1", "p2"])), "T\np1\np2\n");
    assert_eq!(render_chapter(&"T".to_string(), &Vec::new()), "T\n");
}

#[test]
fn collector_gives_up_after_stall_ceiling() {
    let mut c = Collector::new(3, 30, 300);
    c.on_event(Event::Received(ok_result(1, "B", &[])));
    for _ in 0..10 {
        c.on_event(Event::TimedOut);
        assert_eq!(c.status(), CollectStatus::Waiting);
    }
    assert_eq!(c.stall_time(), 300);
    c.on_event(Event::TimedOut);
    assert_eq!(c.status(), CollectStatus::Stalled);
    assert!(c.is_done() && !c.is_complete());
    assert_eq!(c.stall_time(), 330);
    c.on_event(Event::Received(ok_result(0, "A", &[])));
    let results = c.into_results();
    assert_eq!(results.len(), 1);
    assert_eq!(results[0].index, 1);
}

#[test]
fn collector_counts_stall_across_arrivals() {
    let mut c = Collector::new(3, 30, 60);
    c.on_event(Event::TimedOut);
    c.on_event(Event::TimedOut);
    assert_eq!(c.stall_time(), 60);
    c.on_event(Event::Received(ok_result(1, "B", &[])));
    assert_eq!(c.stall_time(), 60);
    assert_eq!(c.pending(), 2);
    c.on_event(Event::TimedOut);
    assert_eq!(c.status(), CollectStatus::Stalled);
    assert_eq!(c.results().len(), 1);
}

#[test]
fn collector_completes_with_all_results() {
    let mut c = Collector::new(2, 30, 60);
    c.on_event(Event::TimedOut);
    c.on_event(Event::Received(ok_result(1, "B", &[])));
    c.on_event(Event::Received(ok_result(0, "A", &[])));
    assert!(c.is_complete());
    assert_eq!(c.results().len(), 2);
    assert!(Collector::new(0, 30, 300).is_complete());
}

#[test]
fn collector_stall_is_cumulative_with_default_ceiling() {
    let mut c = Collector::new(3, 30, 300);
    for _ in 0..10 {
        c.on_event(Event::TimedOut);
    }
    c.on_event(Event::Received(ok_result(0, "A", &[])));
    assert_eq!(c.status(), CollectStatus::Waiting);
    c.on_event(Event::TimedOut);
    assert_eq!(c.status(), CollectStatus::Stalled);
    assert_eq!(c.stall_time(), 330);
    assert_eq!(c.into_results().len(), 1);
}

#[test]
fn collector_stops_when_channel_closes_early() {
    let mut c = Collector::new(2, 30, 300);
    c.on_event(Event::Received(ok_result(0, "A", &[])));
    c.on_event(Event::ChannelClosed);
    assert_eq!(c.status(), CollectStatus::Closed);
    assert!(!c.is_complete());
    assert_eq!(c.results().len(), 1);
}

#[test]
fn dispatcher_never_exceeds_limit() {
    let mut d = Dispatcher::new(5, 2);
    assert_eq!(d.start_next(), Some(0));
    assert_eq!(d.start_next(), Some(1));
    assert_eq!(d.start_next(), None);
    assert_eq!(d.running_units(), 2);
    assert!(d.finish_one());
    assert_eq!(d.start_next(), Some(2));
    assert_eq!(d.start_next(), None);
    let mut finished = 1;
    while finished < 5 {
        assert!(d.running_units() <= 2);
        if d.start_next().is_none() {
            assert!(d.finish_one());
            finished += 1;
        }
    }
    assert!(d.all_finished());
    assert!(!d.finish_one());
    assert_eq!(d.start_next(), None);
}

#[test]
fn permit_pool_counts() {
    let mut p = PermitPool::new(1);
    assert!(p.try_acquire());
    assert!(!p.try_acquire());
    assert_eq!(p.held(), 1);
    assert!(p.release());
    assert!(!p.release());
    assert_eq!(p.capacity(), 1);
}

#[test]
fn user_agent_choice_stays_in_pool() {
    let pool = strings(&["a", "b", "c"]);
    assert_eq!(pick_user_agent(&pool, 4), "b");
    for _ in 0..20 {
        let ua = choose_user_agent(&pool);
        assert!(pool.contains(&ua));
    }
}
