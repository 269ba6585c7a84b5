use navnews::dom::{parse_html, HtmlElement, HtmlNode};
use navnews::news::{get_news_list, news_from_parts, news_insert_sql, parse_element, News};

fn text(s: &str) -> HtmlNode {
    HtmlNode::Text(s.to_string())
}

fn element(name: &str, attrs: Vec<(&str, &str)>, children: Vec<HtmlNode>) -> HtmlElement {
    HtmlElement {
        name: name.to_string(),
        attrs: attrs.into_iter().map(|(k, v)| (k.to_string(), v.to_string())).collect(),
        children,
    }
}

fn span(s: &str) -> HtmlNode {
    HtmlNode::Element(element("span", vec![], vec![text(s)]))
}

#[test]
fn news_default_is_empty() {
    let n = News::default();
    assert_eq!(n.herf, "");
    assert_eq!(n.title, "");
    assert_eq!(n.info, "");
    assert_eq!(n.copyright, "");
    assert_eq!(n.created_at, "");
    assert_eq!(n.article, "");
}

#[test]
fn news_from_parts_reads_each_part() {
    let title = Some(element("a", vec![("class", "title"), ("href", "/n/1.html")], vec![text("T")]));
    let banquan = Some(element("div", vec![], vec![span("来源"), text(" "), span("2022-05-01")]));
    let miaoshu = Some(element("div", vec![], vec![text("摘要一"), span("x"), text("摘要二")]));
    let n = news_from_parts(&title, &banquan, &miaoshu).unwrap();
    assert_eq!(n.herf, "/n/1.html");
    assert_eq!(n.title, "");
    assert_eq!(n.info, "摘要二");
    assert_eq!(n.copyright, "来源");
    assert_eq!(n.created_at, "2022-05-01");
    assert_eq!(n.article, "");
}

#[test]
fn news_title_attribute_overrides_link() {
    let title = Some(element("a", vec![("href", "/n/1.html"), ("title", "标题")], vec![]));
    let banquan = Some(element("div", vec![], vec![]));
    let miaoshu = Some(element("div", vec![], vec![]));
    let n = news_from_parts(&title, &banquan, &miaoshu).unwrap();
    assert_eq!(n.herf, "标题");
}

#[test]
fn news_copyright_only_from_first_node() {
    // The first node is text, so no copyright; the date is the last element.
    let title = Some(element("a", vec![], vec![]));
    let banquan = Some(element("div", vec![], vec![text("x"), span("甲"), span("乙")]));
    let miaoshu = Some(element("div", vec![], vec![]));
    let n = news_from_parts(&title, &banquan, &miaoshu).unwrap();
    assert_eq!(n.copyright, "");
    assert_eq!(n.created_at, "乙");
}

#[test]
fn news_credit_element_without_text_child_gives_empty() {
    let title = Some(element("a", vec![], vec![]));
    let banquan = Some(element("div", vec![], vec![HtmlNode::Element(element("b", vec![], vec![span("深")]))]));
    let miaoshu = Some(element("div", vec![], vec![]));
    let n = news_from_parts(&title, &banquan, &miaoshu).unwrap();
    assert_eq!(n.copyright, "");
}

#[test]
fn news_missing_part_gives_none() {
    let t = Some(element("a", vec![], vec![]));
    let b = Some(element("div", vec![], vec![]));
    let m = Some(element("div", vec![], vec![]));
    assert!(news_from_parts(&None, &b, &m).is_none());
    assert!(news_from_parts(&t, &None, &m).is_none());
    assert!(news_from_parts(&t, &b, &None).is_none());
}

#[test]
fn news_credit_element_without_child_gives_none() {
    let t = Some(element("a", vec![], vec![]));
    let b = Some(element("div", vec![], vec![span("来源"), HtmlNode::Element(element("em", vec![], vec![]))]));
    let m = Some(element("div", vec![], vec![]));
    assert!(news_from_parts(&t, &b, &m).is_none());
}

#[test]
fn get_news_list_reads_blocks_of_a_page() {
    let html = r#"<div class="left_list_box"><a class="title" href="/n/1.html">T</a><div class="banquan"><span>来源</span><span>2022-05-01</span></div><div class="miaoshu">摘要</div></div><div class="left_list_box"><a class="title" href="/n/2.html">U</a></div>"#;
    let nodes = parse_html(html).unwrap();
    let list = get_news_list(&nodes).unwrap();
    assert_eq!(list.len(), 1);
    assert_eq!(list[0].herf, "/n/1.html");
    assert_eq!(list[0].copyright, "来源");
    assert_eq!(list[0].created_at, "2022-05-01");
    assert_eq!(list[0].info, "摘要");
}

#[test]
fn get_news_list_of_page_without_blocks_is_empty() {
    let nodes = parse_html("<p>nothing</p>").unwrap();
    assert!(get_news_list(&nodes).unwrap().is_empty());
}

#[test]
fn parse_element_finds_nested_parts() {
    let nodes = parse_html(r#"<div><p><a class="title" href="/n/3.html">V</a></p><div class="banquan"><span>社</span></div><p class="miaoshu">说明</p></div>"#).unwrap();
    let f = match &nodes[0] {
        HtmlNode::Element(e) => e,
        _ => panic!("expected an element"),
    };
    let n = parse_element(f).unwrap();
    assert_eq!(n.herf, "/n/3.html");
    assert_eq!(n.copyright, "社");
    assert_eq!(n.info, "说明");
}

#[test]
fn parse_html_keeps_text_as_is() {
    let nodes = parse_html("<p> a </p>").unwrap();
    match &nodes[0] {
        HtmlNode::Element(e) => {
            assert_eq!(e.name, "p");
            match &e.children[0] {
                HtmlNode::Text(s) => assert_eq!(s, " a "),
                _ => panic!("expected text"),
            }
        }
        _ => panic!("expected an element"),
    }
}

#[test]
fn parse_html_rejects_unclosed_tag() {
    assert!(parse_html("<div>").is_err());
}

#[test]
fn news_insert_sql_puts_each_field() {
    let n = News {
        herf: "/n/1.html".to_string(),
        title: "".to_string(),
        info: "摘要".to_string(),
        copyright: "来源".to_string(),
        created_at: "2022-05-01".to_string(),
        article: "".to_string(),
    };
    assert_eq!(
        news_insert_sql(&n, "gn/"),
        "INSERT INTO gn/_news(herf,title,info,copyright,created_at)VALUES('/n/1.html','','摘要','来源','2022-05-01')"
    );
}
