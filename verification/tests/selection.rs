use navnews::dom::{element_select_all, element_select_first, parse_html, select_all, select_first, HtmlNode};

fn names(v: &[navnews::dom::HtmlElement]) -> Vec<String> {
    v.iter()
        .map(|e| {
            let id = e.attrs.iter().find(|(k, _)| k == "id").map(|(_, v)| v.clone()).unwrap_or_default();
            format!("{}#{}", e.name, id)
        })
        .collect()
}

const PAGE: &str = r#"<div class="x" id="a"><p class="x" id="b">1</p><span class="x" id="c">2</span></div><p class="x" id="d">3</p>"#;

#[test]
fn select_all_puts_descendants_before_their_element() {
    let nodes = parse_html(PAGE).unwrap();
    let found = select_all(&nodes, ".x");
    assert_eq!(names(&found), vec!["p#b", "span#c", "div#a", "p#d"]);
}

#[test]
fn select_first_tries_the_element_before_its_children() {
    let nodes = parse_html(PAGE).unwrap();
    let found = select_first(&nodes, ".x").unwrap();
    assert_eq!(found.name, "div");
    assert!(select_first(&nodes, ".y").is_none());
}

#[test]
fn element_queries_walk_the_element_and_its_descendants() {
    let nodes = parse_html(PAGE).unwrap();
    let div = match &nodes[0] {
        HtmlNode::Element(e) => e,
        _ => panic!("first node is the div"),
    };
    assert_eq!(names(&element_select_all(div, "p")), vec!["p#b"]);
    assert_eq!(names(&element_select_all(div, ".x")), vec!["p#b", "span#c", "div#a"]);
    assert_eq!(element_select_first(div, "span").unwrap().name, "span");
    assert_eq!(element_select_first(div, ".x").unwrap().name, "div");
}
