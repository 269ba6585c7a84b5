use navnews::dom::HtmlElement;
use navnews::pager::{next_page_nodes, parse_nav_page, CrawlStep, PageCrawl, PagerError};

fn first_pager(html: &str) -> HtmlElement {
    let mut page = parse_nav_page(html).unwrap();
    assert_eq!(page.pagers.len(), 1);
    page.pagers.remove(0)
}

fn fetched_pages(mut crawl: PageCrawl, limit: usize) -> Vec<(String, i32)> {
    let mut out = Vec::new();
    while out.len() < limit {
        match crawl.next_action() {
            CrawlStep::Done => break,
            CrawlStep::Fetch { url, page } => {
                out.push((url, page));
                crawl.advance();
            }
        }
    }
    out
}

#[test]
fn crawl_visits_the_following_pages() {
    let f = first_pager(r#"<div class="pag_1"><div><strong>5</strong><strong>100</strong><span class="ntub"><a href="list_2.html">下一页</a></span></div></div>"#);
    let crawl = PageCrawl::start(&f, "gn").ok().unwrap();
    assert_eq!(crawl.page_size, 5);
    assert_eq!(crawl.news_size, 100);
    assert_eq!(crawl.count, 2);
    assert_eq!(crawl.next_href, "list_2.html");
    let url = "http://www.tanpaifang.com/gn/list_2.html".to_string();
    assert_eq!(fetched_pages(crawl, 10), vec![(url.clone(), 2), (url.clone(), 3), (url, 4)]);
}

#[test]
fn crawl_of_two_pages_fetches_nothing() {
    // With two pages the link is not even looked for.
    let f = first_pager(r#"<div class="pag_1"><div><strong>2</strong><span class="ntub">none</span></div></div>"#);
    let crawl = PageCrawl::start(&f, "gn").ok().unwrap();
    assert_eq!(crawl.next_href, "");
    assert!(fetched_pages(crawl, 10).is_empty());
}

#[test]
fn crawl_without_page_count_fetches_nothing() {
    let f = first_pager(r#"<div class="pag_1"><p>no pager</p></div>"#);
    let crawl = PageCrawl::start(&f, "gn").ok().unwrap();
    assert_eq!(crawl.page_size, 0);
    assert!(fetched_pages(crawl, 10).is_empty());
}

#[test]
fn crawl_of_one_page_does_not_stop() {
    let f = first_pager(r#"<div class="pag_1"><div><strong>1</strong><span class="ntub"><a href="n.html">n</a></span></div></div>"#);
    let crawl = PageCrawl::start(&f, "gn").ok().unwrap();
    let pages: Vec<i32> = fetched_pages(crawl, 4).into_iter().map(|(_, p)| p).collect();
    assert_eq!(pages, vec![2, 3, 4, 5]);
}

#[test]
fn crawl_count_that_is_not_a_number_is_an_error() {
    let f = first_pager(r#"<div class="pag_1"><div><strong>五</strong></div></div>"#);
    assert_eq!(PageCrawl::start(&f, "gn").err(), Some(PagerError::BadNumber));
}

#[test]
fn crawl_news_count_with_space_is_an_error() {
    let f = first_pager(r#"<div class="pag_1"><div><strong>3</strong><strong> 9</strong></div></div>"#);
    assert_eq!(PageCrawl::start(&f, "gn").err(), Some(PagerError::BadNumber));
}

#[test]
fn crawl_count_with_plus_sign() {
    let f = first_pager(r#"<div class="pag_1"><div><strong>+2</strong><strong>-7</strong></div></div>"#);
    let crawl = PageCrawl::start(&f, "gn").ok().unwrap();
    assert_eq!(crawl.page_size, 2);
    assert_eq!(crawl.news_size, -7);
}

#[test]
fn crawl_missing_link_is_an_error() {
    let f = first_pager(r#"<div class="pag_1"><div><strong>3</strong><span class="ntub">none</span></div></div>"#);
    assert_eq!(PageCrawl::start(&f, "gn").err(), Some(PagerError::MissingAnchor));
}

#[test]
fn crawl_link_of_last_ntub_with_href() {
    let f = first_pager(r#"<div class="pag_1"><div><strong>4</strong><span class="ntub"><a href="a.html">a</a></span><span class="ntub"><a>b</a></span></div></div>"#);
    let crawl = PageCrawl::start(&f, "gn").ok().unwrap();
    assert_eq!(crawl.next_href, "a.html");
}

#[test]
fn nav_page_collects_pager_children_and_news() {
    let html = r#"<div class="left_list_box"><a class="title" href="/n/1.html">T</a><div class="banquan"><span>来源</span></div><div class="miaoshu">摘要</div></div><div class="pag_1">x<b>1</b><i>2</i></div>"#;
    let page = parse_nav_page(html).unwrap();
    assert_eq!(page.news.len(), 1);
    assert_eq!(page.news[0].herf, "/n/1.html");
    let names: Vec<&str> = page.pagers.iter().map(|e| e.name.as_str()).collect();
    assert_eq!(names, vec!["b", "i"]);
}

#[test]
fn nav_page_of_unclosed_page_is_none() {
    assert!(parse_nav_page("<div class=\"pag_1\">").is_none());
}

#[test]
fn next_page_nodes_parses_or_fails() {
    assert_eq!(next_page_nodes("<p>a</p><p>b</p>").unwrap().len(), 2);
    assert!(next_page_nodes("<p>").is_none());
}
