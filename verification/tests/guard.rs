use navnews::guard::parse_is_safe;
use navnews::nav::navbox;
use navnews::pager::{next_page_nodes, parse_nav_page};

#[test]
fn ordinary_page_is_safe() {
    assert!(parse_is_safe(r#"<!DOCTYPE html><html><head><meta charset="utf-8"><title>新闻</title></head><body><div class="navbox"><a href="/a/" title="a>b">国内</a></div><!-- note --><br/></body></html>"#));
}

#[test]
fn script_with_shifts_is_safe() {
    assert!(parse_is_safe("<script>var a = 1 >> 2;</script><p>x</p>"));
}

#[test]
fn attribute_list_ending_after_equals_is_unsafe() {
    assert!(!parse_is_safe("<div a=>x</div>"));
}

#[test]
fn script_body_starting_with_bracket_is_unsafe() {
    assert!(!parse_is_safe("<script>>"));
    assert!(!parse_is_safe("<script>t>"));
    assert!(!parse_is_safe("<style>e></style>"));
}

#[test]
fn short_comment_is_unsafe() {
    assert!(!parse_is_safe("<!-->"));
    assert!(!parse_is_safe("<!--->"));
    assert!(parse_is_safe("<!---->"));
}

#[test]
fn xml_declaration_with_version_and_encoding_is_safe() {
    assert!(parse_is_safe(r#"<?xml version="1.0" encoding="utf-8"?><p>x</p>"#));
    let nodes = next_page_nodes(r#"<?xml version="1.0" encoding="utf-8"?><p>x</p>"#).unwrap();
    assert_eq!(nodes.len(), 2);
}

#[test]
fn xml_declaration_without_version_or_encoding_is_unsafe() {
    assert!(!parse_is_safe("<?x?>"));
    assert!(!parse_is_safe(r#"<?xml version="1.0"?>"#));
    assert!(!parse_is_safe(r#"<?xml encoding="utf-8"?>"#));
}

#[test]
fn short_or_broken_declaration_is_unsafe() {
    assert!(!parse_is_safe("<?>"));
    assert!(!parse_is_safe(r#"<?xml version="1.0" encoding="utf-8"é>"#));
    // The declaration's attribute text leaves out the character before `>`.
    assert!(!parse_is_safe(r#"<?xml version="1.0" encoding="utf-8" a=?>"#));
    assert!(parse_is_safe(r#"<?xml version="1.0" encoding=>"#));
}

#[test]
fn non_ascii_tag_name_before_attribute_depends_on_byte_boundary() {
    // `<é a>`: the name's character count (1) used as a byte offset falls
    // inside `é`, which takes two bytes.
    assert!(!parse_is_safe(r#"<é a="1">x</é>"#));
    // `<éé b>`: the count (2), plus the `<`, lands on byte 3, the start of
    // the second `é`.
    assert!(parse_is_safe("<éé b>x</éé>"));
    assert!(parse_is_safe("<é>x</é>"));
}

#[test]
fn closing_text_that_starts_with_non_ascii_is_unsafe() {
    assert!(!parse_is_safe("<p>x</p>中/>"));
    assert!(!parse_is_safe("<p>x</p>/>"));
}

#[test]
fn nothing_after_a_stray_bracket_counts() {
    // The parser stops with an error at the first `>` outside a tag.
    assert!(parse_is_safe("x > <div a=>"));
}

#[test]
fn pages_that_would_panic_give_none() {
    assert!(parse_nav_page("<div class=\"pag_1\" a=></div>").is_none());
    assert!(next_page_nodes("<!-->").is_none());
    assert!(next_page_nodes("<p>ok</p>").is_some());
}

#[test]
fn pages_with_xml_declaration_are_read() {
    let nav_page = r#"<?xml version="1.0" encoding="utf-8"?><div class="pag_1"><b>1</b><i>2</i></div>"#;
    let page = parse_nav_page(nav_page).unwrap();
    let names: Vec<&str> = page.pagers.iter().map(|e| e.name.as_str()).collect();
    assert_eq!(names, vec!["b", "i"]);
    let front = r#"<?xml version="1.0" encoding="utf-8"?><div class="navbox"><p><a href="/gn/">国内</a></p></div>"#;
    let navs = navbox(front).unwrap();
    assert_eq!(navs.len(), 1);
    assert_eq!(navs[0].path, "/gn/");
}
