use navnews::dom::{HtmlElement, HtmlNode};
use navnews::nav::{
    create_table_sql, nav_from_anchor, nav_insert_sql, nav_task, navbox, parse_nav_head, Nav,
};

fn text(s: &str) -> HtmlNode {
    HtmlNode::Text(s.to_string())
}

fn element(name: &str, attrs: Vec<(&str, &str)>, children: Vec<HtmlNode>) -> HtmlElement {
    HtmlElement {
        name: name.to_string(),
        attrs: attrs.into_iter().map(|(k, v)| (k.to_string(), v.to_string())).collect(),
        children,
    }
}

fn pairs(navs: &[Nav]) -> Vec<(String, String)> {
    navs.iter().map(|n| (n.path.clone(), n.text.clone())).collect()
}

#[test]
fn nav_new_starts_uncrawled() {
    let nav = Nav::new("/gn/".to_string(), "国内".to_string());
    assert_eq!(nav.path, "/gn/");
    assert_eq!(nav.text, "国内");
    assert_eq!(nav.href, "");
    assert_eq!(nav.state, 0);
}

#[test]
fn nav_default_is_empty() {
    let nav = Nav::default();
    assert_eq!(nav.path, "");
    assert_eq!(nav.text, "");
    assert_eq!(nav.href, "");
    assert_eq!(nav.state, 0);
}

#[test]
fn navbox_reads_links_of_each_child() {
    let html = r#"<div class="navbox"><ul><li><a href="/gn/">国内</a></li><li><a href="/gj/">国际</a></li></ul><p><a href="/jy/">交易</a></p></div>"#;
    let navs = navbox(html).unwrap();
    assert_eq!(
        pairs(&navs),
        vec![
            ("/gn/".to_string(), "国内".to_string()),
            ("/gj/".to_string(), "国际".to_string()),
            ("/jy/".to_string(), "交易".to_string()),
        ]
    );
    assert!(navs.iter().all(|n| n.state == 0 && n.href.is_empty()));
}

#[test]
fn navbox_reads_every_box() {
    let html = r#"<div class="navbox"><p><a href="/a/">A</a></p></div><div><div class="navbox top"><p><a href="/b/">B</a></p></div></div>"#;
    let navs = navbox(html).unwrap();
    assert_eq!(pairs(&navs), vec![("/a/".to_string(), "A".to_string()), ("/b/".to_string(), "B".to_string())]);
}

#[test]
fn navbox_reads_link_that_is_a_direct_child() {
    // A link that is itself a child element of the box is found by the
    // query of that child; the text node beside it is skipped.
    let html = r#"<div class="navbox">text<a href="/x/">X</a></div>"#;
    let navs = navbox(html).unwrap();
    assert_eq!(pairs(&navs), vec![("/x/".to_string(), "X".to_string())]);
}

#[test]
fn navbox_without_box_is_empty() {
    let navs = navbox("<div><a href=\"/a/\">A</a></div>").unwrap();
    assert!(navs.is_empty());
}

#[test]
fn navbox_of_page_the_parser_would_panic_on_is_none() {
    assert!(navbox("<div class=\"navbox\" a=><a href=\"/a/\">A</a></div>").is_none());
}

#[test]
fn navbox_of_page_with_stray_angle_bracket_is_none() {
    assert!(navbox("<div class=\"navbox\">1 > 0<p><a href=\"/a/\">A</a></p></div>").is_none());
}

#[test]
fn navbox_of_unclosed_page_is_none() {
    assert!(navbox("<div class=\"navbox\">").is_none());
    assert!(navbox("</div>").is_none());
}

#[test]
fn nav_from_anchor_takes_last_href_and_last_text() {
    let a = element(
        "a",
        vec![("href", "/one/"), ("class", "x"), ("href", "/two/")],
        vec![text("first"), HtmlNode::Element(element("span", vec![], vec![text("inner")])), text("second")],
    );
    let nav = nav_from_anchor(&a);
    assert_eq!(nav.path, "/two/");
    assert_eq!(nav.text, "second");
    assert_eq!(nav.state, 0);
}

#[test]
fn nav_from_anchor_without_href_or_text_is_empty() {
    let a = element("a", vec![("class", "x")], vec![HtmlNode::Comment("c".to_string())]);
    let nav = nav_from_anchor(&a);
    assert_eq!(nav.path, "");
    assert_eq!(nav.text, "");
}

#[test]
fn parse_nav_head_skips_text_children() {
    let f = element(
        "div",
        vec![("class", "navbox")],
        vec![
            text("ignored"),
            HtmlNode::Element(element("p", vec![], vec![HtmlNode::Element(element("a", vec![("href", "/p/")], vec![text("P")]))])),
        ],
    );
    let navs = parse_nav_head(&f).unwrap();
    assert_eq!(pairs(&navs), vec![("/p/".to_string(), "P".to_string())]);
}

#[test]
fn nav_insert_sql_puts_path_and_text() {
    let nav = Nav::new("/gn/".to_string(), "国内".to_string());
    assert_eq!(nav_insert_sql(&nav), "INSERT INTO navs (link,title)VALUES('/gn/','国内')");
}

#[test]
fn create_table_sql_names_the_news_table() {
    assert_eq!(
        create_table_sql("gn/"),
        "CREATE TABLE if not exists  gn/_news (herf TEXT, title TEXT,info TEXT,copyright TEXT,created_at TEXT);"
    );
}

#[test]
fn nav_task_of_uncrawled_entry() {
    let nav = Nav::new("/gn/".to_string(), "国内".to_string());
    let task = nav_task(&nav).unwrap();
    assert_eq!(task.link, "gn/");
    assert_eq!(task.url, "http://www.tanpaifang.com//gn/");
    assert_eq!(task.create_sql, create_table_sql("gn/"));
}

#[test]
fn nav_task_drops_a_whole_first_character() {
    let nav = Nav::new("国内".to_string(), String::new());
    let task = nav_task(&nav).unwrap();
    assert_eq!(task.link, "内");
}

#[test]
fn nav_task_skips_crawled_entry() {
    let mut nav = Nav::new("/gn/".to_string(), "国内".to_string());
    nav.state = 1;
    assert!(nav_task(&nav).is_none());
}

#[test]
fn nav_task_skips_crawled_entry_with_empty_path() {
    let mut nav = Nav::new(String::new(), "x".to_string());
    nav.state = 2;
    assert!(nav_task(&nav).is_none());
}

#[test]
fn rebuilt_entry_is_always_crawled() {
    let mut nav = Nav::new("/a/".to_string(), "A".to_string());
    nav.state = 1;
    let rebuilt = Nav::new(nav.path.clone(), nav.text.clone());
    assert!(nav_task(&rebuilt).is_some());
}
