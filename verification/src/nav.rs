use vstd::prelude::*;
use vstd::string::*;

use crate::guard::{parse_is_safe, parse_safe};
use crate::dom::{
    element_select_all, element_selected_all, html_parse, last_attr, last_attr_value, last_text,
    last_text_of, lemma_last_text_at, lemma_no_last_text, or_empty, parse_html, select_all, selected_all, HtmlElement, HtmlNode,
};

verus! {

/// The site whose pages are crawled.
pub const BASE_URL: &'static str = "http://www.tanpaifang.com/";

/// An entry of the site's navigation bar.
pub struct Nav {
    pub path: String,
    pub text: String,
    pub href: String,
    pub state: i32,
}

/// The contents of a [`Nav`].
pub struct NavView {
    pub path: Seq<char>,
    pub text: Seq<char>,
    pub href: Seq<char>,
    pub state: i32,
}

impl View for Nav {
    type V = NavView;

    open spec fn view(&self) -> NavView {
        NavView { path: self.path@, text: self.text@, href: self.href@, state: self.state }
    }
}

/// The contents of each entry of `navs`, in order.
pub open spec fn navs_view(navs: Seq<Nav>) -> Seq<NavView> {
    navs.map_values(|n: Nav| n@)
}

impl Nav {
    /// An entry with the given path and text, an empty link and state 0
    /// (not yet crawled).
    pub fn new(path: String, text: String) -> (res: Nav)
        ensures
            res@ == (NavView { path: path@, text: text@, href: Seq::empty(), state: 0 }),
    {
        Nav { path, text, state: 0, href: String::new() }
    }
}

impl Default for Nav {
    fn default() -> (res: Nav)
        ensures
            res@ == (NavView { path: Seq::empty(), text: Seq::empty(), href: Seq::empty(), state: 0 }),
    {
        Nav { path: String::new(), text: String::new(), state: 0, href: String::new() }
    }
}

/// The entry read from a link element: its path is the last `href`
/// attribute, its text the last text node among its children.
pub open spec fn nav_of_anchor(a: HtmlElement) -> NavView {
    NavView {
        path: or_empty(last_attr_value(a.attrs@, "href"@, a.attrs@.len() as int)),
        text: or_empty(last_text(a.children@, a.children@.len() as int)),
        href: Seq::empty(),
        state: 0,
    }
}

/// The entries read from each link element of `anchors`, in order.
pub open spec fn anchors_navs(anchors: Seq<HtmlElement>) -> Seq<NavView> {
    anchors.map_values(|a: HtmlElement| nav_of_anchor(a))
}

/// The entries of a navigation box whose child nodes are `children`, from
/// its first `n` children: for each child element, the links that
/// `Queryable::query_all` finds in it for the selector `a`.
pub open spec fn nav_head_navs(children: Seq<HtmlNode>, n: int) -> Seq<NavView>
    decreases n,
{
    if n <= 0 {
        Seq::empty()
    } else {
        let prev = nav_head_navs(children, n - 1);
        match children[n - 1] {
            HtmlNode::Element(c) => prev + anchors_navs(element_selected_all(c, "a"@)),
            _ => prev,
        }
    }
}

/// The entries of the first `n` navigation boxes of `boxes`, box after box.
pub open spec fn boxes_navs(boxes: Seq<HtmlElement>, n: int) -> Seq<NavView>
    decreases n,
{
    if n <= 0 {
        Seq::empty()
    } else {
        boxes_navs(boxes, n - 1) + nav_head_navs(boxes[n - 1].children@, boxes[n - 1].children@.len() as int)
    }
}

/// The entries of the navigation bar of a page, or `None` where the page
/// does not parse or the parser would panic on it.
pub open spec fn navbox_navs(text: Seq<char>) -> Option<Seq<NavView>> {
    if !parse_safe(text) {
        None
    } else {
        match html_parse(text) {
            Ok(nodes) => {
                let boxes = selected_all(nodes, ".navbox"@);
                Some(boxes_navs(boxes, boxes.len() as int))
            },
            Err(_) => None,
        }
    }
}

/// An entry's text is the content of the last text node among the link's
/// children, wherever that node stands among them (elements may follow it).
pub proof fn lemma_anchor_text_is_last_text_node(a: HtmlElement, i: int, t: String)
    requires
        0 <= i < a.children@.len(),
        a.children@[i] == HtmlNode::Text(t),
        forall|j: int| i < j < a.children@.len() ==> !(#[trigger] a.children@[j] is Text),
    ensures
        nav_of_anchor(a).text == t@,
{
    lemma_last_text_at(a.children@, a.children@.len() as int, i, t);
}

/// An entry read from a link without a text node among its children has
/// an empty text.
pub proof fn lemma_anchor_without_text_node(a: HtmlElement)
    requires
        forall|j: int| 0 <= j < a.children@.len() ==> !(#[trigger] a.children@[j] is Text),
    ensures
        nav_of_anchor(a).text == Seq::<char>::empty(),
{
    lemma_no_last_text(a.children@, a.children@.len() as int);
}

/// Reads the entry of one link element.
pub fn nav_from_anchor(a: &HtmlElement) -> (res: Nav)
    ensures
        res@ == nav_of_anchor(*a),
{
    let mut nav = Nav::new(String::new(), String::new());
    match last_attr(&a.attrs, "href") {
        Some(path) => {
            nav.path = path;
        },
        None => {},
    }
    match last_text_of(&a.children) {
        Some(text) => {
            nav.text = text;
        },
        None => {},
    }
    nav
}

/// Reads the entry of each link element, in order.
pub fn navs_from_anchors(anchors: &Vec<HtmlElement>) -> (res: Vec<Nav>)
    ensures
        navs_view(res@) == anchors_navs(anchors@),
{
    let mut navs: Vec<Nav> = Vec::new();
    let mut i: usize = 0;
    while i < anchors.len()
        invariant
            i <= anchors@.len(),
            navs_view(navs@) =~= anchors_navs(anchors@.take(i as int)),
        decreases anchors@.len() - i,
    {
        let nav = nav_from_anchor(&anchors[i]);
        let ghost before = navs@;
        navs.push(nav);
        assert(navs_view(navs@) =~= navs_view(before).push(nav_of_anchor(anchors@[i as int])));
        assert(anchors@.take(i as int + 1) =~= anchors@.take(i as int).push(anchors@[i as int]));
        assert(anchors_navs(anchors@.take(i as int + 1)) =~= anchors_navs(anchors@.take(i as int)).push(nav_of_anchor(anchors@[i as int])));
        i = i + 1;
    }
    assert(anchors@.take(anchors@.len() as int) =~= anchors@);
    navs
}

/// Reads the entries of one navigation box: the links inside each of its
/// child elements, child after child. It always succeeds.
pub fn parse_nav_head(f: &HtmlElement) -> (res: Option<Vec<Nav>>)
    ensures
        res is Some,
        res matches Some(navs) ==> navs_view(navs@) == nav_head_navs(f.children@, f.children@.len() as int),
{
    let mut nav_list: Vec<Nav> = Vec::new();
    let mut i: usize = 0;
    while i < f.children.len()
        invariant
            i <= f.children@.len(),
            navs_view(nav_list@) == nav_head_navs(f.children@, i as int),
        decreases f.children@.len() - i,
    {
        match &f.children[i] {
            HtmlNode::Element(element) => {
                proof { reveal_strlit("a"); }
                let anchors = element_select_all(element, "a");
                let mut navs = navs_from_anchors(&anchors);
                let ghost before = nav_list@;
                let ghost added = navs@;
                nav_list.append(&mut navs);
                assert(navs_view(before + added) =~= navs_view(before) + navs_view(added));
            },
            _ => {},
        }
        i = i + 1;
    }
    Some(nav_list)
}

/// Reads the entries of each navigation box, box after box.
pub fn navs_from_boxes(boxes: &Vec<HtmlElement>) -> (res: Vec<Nav>)
    ensures
        navs_view(res@) == boxes_navs(boxes@, boxes@.len() as int),
{
    let mut navs_list: Vec<Nav> = Vec::new();
    let mut i: usize = 0;
    while i < boxes.len()
        invariant
            i <= boxes@.len(),
            navs_view(navs_list@) == boxes_navs(boxes@, i as int),
        decreases boxes@.len() - i,
    {
        match parse_nav_head(&boxes[i]) {
            Some(mut navs) => {
                let ghost before = navs_list@;
                let ghost added = navs@;
                navs_list.append(&mut navs);
                assert(navs_view(before + added) =~= navs_view(before) + navs_view(added));
            },
            None => {},
        }
        i = i + 1;
    }
    navs_list
}

/// Reads the navigation bar of the site's front page: the entries of every
/// element of class `navbox`. `None` where the page does not parse, and
/// where `html_editor::parse` would panic on it (see [`parse_safe`]).
pub fn navbox(html_text: &str) -> (res: Option<Vec<Nav>>)
    ensures
        match res {
            Some(navs) => navbox_navs(html_text@) == Some(navs_view(navs@)),
            None => navbox_navs(html_text@) is None,
        },
{
    if !parse_is_safe(html_text) {
        return None;
    }
    match parse_html(html_text) {
        Ok(html) => {
            proof { reveal_strlit(".navbox"); }
            let boxes = select_all(&html, ".navbox");
            Some(navs_from_boxes(&boxes))
        },
        Err(_) => None,
    }
}

/// The statement that stores one navigation entry.
pub open spec fn nav_insert_statement(nav: NavView) -> Seq<char> {
    "INSERT INTO navs (link,title)VALUES('"@ + nav.path + "','"@ + nav.text + "')"@
}

/// Builds the statement that stores `nav` in the `navs` table (the values
/// are put in as they are).
pub fn nav_insert_sql(nav: &Nav) -> (res: String)
    ensures
        res@ == nav_insert_statement(nav@),
{
    let mut sql = String::new();
    sql.append("INSERT INTO navs (link,title)VALUES('");
    sql.append(nav.path.as_str());
    sql.append("','");
    sql.append(nav.text.as_str());
    sql.append("')");
    assert(sql@ =~= nav_insert_statement(nav@));
    sql
}

/// The table that holds the news of the section whose link is `link`.
pub open spec fn news_table(link: Seq<char>) -> Seq<char> {
    link + "_news"@
}

/// The statement that creates the news table of a section.
pub open spec fn create_table_statement(link: Seq<char>) -> Seq<char> {
    "CREATE TABLE if not exists  "@ + news_table(link)
        + " (herf TEXT, title TEXT,info TEXT,copyright TEXT,created_at TEXT);"@
}

/// Builds the statement that creates the news table of the section `link`.
pub fn create_table_sql(link: &str) -> (res: String)
    ensures
        res@ == create_table_statement(link@),
{
    let mut sql = String::new();
    sql.append("CREATE TABLE if not exists  ");
    sql.append(link);
    sql.append("_news");
    sql.append(" (herf TEXT, title TEXT,info TEXT,copyright TEXT,created_at TEXT);");
    assert(sql@ =~= create_table_statement(link@));
    sql
}

/// The address of a page of the site.
pub fn page_url(path: &str) -> (res: String)
    ensures
        res@ == BASE_URL@ + path@,
{
    let mut url = String::new();
    url.append(BASE_URL);
    url.append(path);
    url
}

/// What crawling one section starts from: its link (the path without its
/// first character), the statement that creates its news table, and the
/// address of its first page.
pub struct NavTask {
    pub link: String,
    pub create_sql: String,
    pub url: String,
}

/// The contents of a [`NavTask`].
pub struct NavTaskView {
    pub link: Seq<char>,
    pub create_sql: Seq<char>,
    pub url: Seq<char>,
}

impl View for NavTask {
    type V = NavTaskView;

    open spec fn view(&self) -> NavTaskView {
        NavTaskView { link: self.link@, create_sql: self.create_sql@, url: self.url@ }
    }
}

/// What crawling an entry starts from: nothing for an entry whose state is
/// not 0, else the task of its section.
pub open spec fn nav_task_of(nav: NavView) -> Option<NavTaskView> {
    if nav.state != 0 {
        None
    } else {
        let link = nav.path.drop_first();
        Some(NavTaskView { link, create_sql: create_table_statement(link), url: BASE_URL@ + nav.path })
    }
}

/// Decides what crawling `nav` starts from (see [`nav_task_of`]). An entry
/// to crawl must have a path: the program panics on an empty one (it drops
/// the path's first character), so it tests the path before the call.
pub fn nav_task(nav: &Nav) -> (res: Option<NavTask>)
    requires
        nav.state != 0 || nav.path@.len() > 0,
    ensures
        match res {
            Some(task) => nav_task_of(nav@) == Some(task@),
            None => nav_task_of(nav@) is None,
        },
{
    if nav.state != 0 {
        return None;
    }
    let path = nav.path.as_str();
    let n = path.unicode_len();
    let mut link = String::new();
    link.append(path.substring_char(1, n));
    assert(link@ =~= nav.path@.drop_first());
    let create_sql = create_table_sql(link.as_str());
    let url = page_url(path);
    Some(NavTask { link, create_sql, url })
}

/// An entry rebuilt from a stored row with [`Nav::new`] has state 0, so
/// crawling it always starts (its stored state is not consulted); its path
/// must not be empty, as [`nav_task`] requires.
pub proof fn lemma_rebuilt_nav_is_crawled(path: Seq<char>, text: Seq<char>)
    requires
        path.len() > 0,
    ensures
        nav_task_of(NavView { path, text, href: Seq::empty(), state: 0 }) == Some(
            NavTaskView {
                link: path.drop_first(),
                create_sql: create_table_statement(path.drop_first()),
                url: BASE_URL@ + path,
            },
        ),
{
}

/// For a path that starts with `/`, the section's link is the path without
/// it, and its first page is the site's address followed by the path.
pub proof fn lemma_link_of_rooted_path(rest: Seq<char>, text: Seq<char>)
    ensures
        nav_task_of(NavView { path: seq!['/'] + rest, text, href: Seq::empty(), state: 0 })
            matches Some(task) && task.link == rest && task.url == BASE_URL@ + seq!['/'] + rest,
{
    assert((seq!['/'] + rest).drop_first() =~= rest);
    assert(BASE_URL@ + (seq!['/'] + rest) =~= BASE_URL@ + seq!['/'] + rest);
}

} // verus!
