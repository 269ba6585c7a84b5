use vstd::prelude::*;
use vstd::string::*;

use crate::dom::{
    child_elements, html_parse, last_attr_value, last_text, last_text_of, lemma_last_text_at, lemma_no_last_text, or_empty, parse_html,
    select_all, select_first, selected_all, selected_first, HtmlElement, HtmlNode,
};
use crate::nav::news_table;
use crate::text::str_equals;

verus! {

/// One news item of a section's list.
pub struct News {
    pub herf: String,
    pub title: String,
    pub info: String,
    pub copyright: String,
    pub created_at: String,
    pub article: String,
}

/// The contents of a [`News`].
pub struct NewsView {
    pub herf: Seq<char>,
    pub title: Seq<char>,
    pub info: Seq<char>,
    pub copyright: Seq<char>,
    pub created_at: Seq<char>,
    pub article: Seq<char>,
}

impl View for News {
    type V = NewsView;

    open spec fn view(&self) -> NewsView {
        NewsView {
            herf: self.herf@,
            title: self.title@,
            info: self.info@,
            copyright: self.copyright@,
            created_at: self.created_at@,
            article: self.article@,
        }
    }
}

/// The item with every field empty.
pub open spec fn empty_news() -> NewsView {
    NewsView {
        herf: Seq::empty(),
        title: Seq::empty(),
        info: Seq::empty(),
        copyright: Seq::empty(),
        created_at: Seq::empty(),
        article: Seq::empty(),
    }
}

impl Default for News {
    fn default() -> (res: News)
        ensures
            res@ == empty_news(),
    {
        News {
            herf: String::new(),
            title: String::new(),
            info: String::new(),
            copyright: String::new(),
            created_at: String::new(),
            article: String::new(),
        }
    }
}

/// The contents of each item of `news`, in order.
pub open spec fn news_view(news: Seq<News>) -> Seq<NewsView> {
    news.map_values(|n: News| n@)
}

/// The contents of an optional item.
pub open spec fn news_opt_view(news: Option<News>) -> Option<NewsView> {
    match news {
        Some(n) => Some(n@),
        None => None,
    }
}

/// The value of the last attribute among the first `n` that is named
/// `href` or `title`.
pub open spec fn last_link_attr(attrs: Seq<(String, String)>, n: int) -> Option<Seq<char>>
    decreases n,
{
    if n <= 0 {
        None
    } else if attrs[n - 1].0@ == "href"@ || attrs[n - 1].0@ == "title"@ {
        Some(attrs[n - 1].1@)
    } else {
        last_link_attr(attrs, n - 1)
    }
}

/// The text an element of the copyright line carries: its first child if
/// that is a text node, else the empty string.
pub open spec fn first_child_text(e: HtmlElement) -> Seq<char> {
    match e.children@[0] {
        HtmlNode::Text(s) => s@,
        _ => Seq::empty(),
    }
}

/// Whether a node, if it is an element, has a child.
pub open spec fn has_child_if_element(node: HtmlNode) -> bool {
    match node {
        HtmlNode::Element(e) => e.children@.len() > 0,
        _ => true,
    }
}

/// Whether every element among the copyright line's nodes has a child.
pub open spec fn credit_complete(nodes: Seq<HtmlNode>) -> bool {
    forall|i: int| 0 <= i < nodes.len() ==> has_child_if_element(#[trigger] nodes[i])
}

/// The copyright of an item: the text of the copyright line's first node,
/// when that node is an element.
pub open spec fn credit_copyright(nodes: Seq<HtmlNode>) -> Seq<char> {
    if nodes.len() > 0 {
        match nodes[0] {
            HtmlNode::Element(e) => first_child_text(e),
            _ => Seq::empty(),
        }
    } else {
        Seq::empty()
    }
}

/// The date of an item: the text of the last element among the copyright
/// line's first `n` nodes, the first node left out.
pub open spec fn credit_created_at(nodes: Seq<HtmlNode>, n: int) -> Seq<char>
    decreases n,
{
    if n <= 1 {
        Seq::empty()
    } else {
        match nodes[n - 1] {
            HtmlNode::Element(e) => first_child_text(e),
            _ => credit_created_at(nodes, n - 1),
        }
    }
}

/// The item read from its title link, its copyright line and its summary;
/// `None` where one of them is missing or an element of the copyright line
/// has no child.
pub open spec fn news_of_parts(
    title: Option<HtmlElement>,
    banquan: Option<HtmlElement>,
    miaoshu: Option<HtmlElement>,
) -> Option<NewsView> {
    match (title, banquan, miaoshu) {
        (Some(t), Some(b), Some(m)) => {
            if credit_complete(b.children@) {
                Some(NewsView {
                    herf: or_empty(last_link_attr(t.attrs@, t.attrs@.len() as int)),
                    title: Seq::empty(),
                    info: or_empty(last_text(m.children@, m.children@.len() as int)),
                    copyright: credit_copyright(b.children@),
                    created_at: credit_created_at(b.children@, b.children@.len() as int),
                    article: Seq::empty(),
                })
            } else {
                None
            }
        },
        _ => None,
    }
}

/// The item of one news block: its parts are what `Queryable::query` finds
/// among the block's children for `.title`, `.banquan` and `.miaoshu`.
pub open spec fn news_of_block(f: HtmlElement) -> Option<NewsView> {
    news_of_parts(
        selected_first(f.children@, ".title"@),
        selected_first(f.children@, ".banquan"@),
        selected_first(f.children@, ".miaoshu"@),
    )
}

/// The items of the first `n` blocks, the blocks without an item left out.
pub open spec fn blocks_news(blocks: Seq<HtmlElement>, n: int) -> Seq<NewsView>
    decreases n,
{
    if n <= 0 {
        Seq::empty()
    } else {
        let prev = blocks_news(blocks, n - 1);
        match news_of_block(blocks[n - 1]) {
            Some(v) => prev.push(v),
            None => prev,
        }
    }
}

/// The items of a parsed page: those of its elements of class `left_list_box`.
pub open spec fn page_news(nodes: Seq<HtmlNode>) -> Seq<NewsView> {
    let blocks = selected_all(nodes, ".left_list_box"@);
    blocks_news(blocks, blocks.len() as int)
}

/// An item's summary is the content of the last text node among the
/// summary element's children, wherever that node stands among them (a
/// read-more link may follow it).
pub proof fn lemma_item_info_is_last_text_node(
    title: HtmlElement,
    banquan: HtmlElement,
    miaoshu: HtmlElement,
    i: int,
    t: String,
)
    requires
        credit_complete(banquan.children@),
        0 <= i < miaoshu.children@.len(),
        miaoshu.children@[i] == HtmlNode::Text(t),
        forall|j: int| i < j < miaoshu.children@.len() ==> !(#[trigger] miaoshu.children@[j] is Text),
    ensures
        news_of_parts(Some(title), Some(banquan), Some(miaoshu)) matches Some(v) && v.info == t@,
{
    lemma_last_text_at(miaoshu.children@, miaoshu.children@.len() as int, i, t);
}

/// An item whose summary element has no text node among its children has
/// an empty summary.
pub proof fn lemma_item_info_without_text_node(title: HtmlElement, banquan: HtmlElement, miaoshu: HtmlElement)
    requires
        credit_complete(banquan.children@),
        forall|j: int| 0 <= j < miaoshu.children@.len() ==> !(#[trigger] miaoshu.children@[j] is Text),
    ensures
        news_of_parts(Some(title), Some(banquan), Some(miaoshu)) matches Some(v) && v.info == Seq::<char>::empty(),
{
    lemma_no_last_text(miaoshu.children@, miaoshu.children@.len() as int);
}

/// Reading one more block adds its item, if it has one, after the items
/// of the blocks before it, and changes nothing else.
pub proof fn lemma_blocks_news_step(blocks: Seq<HtmlElement>, n: int)
    requires
        0 <= n < blocks.len(),
    ensures
        news_of_block(blocks[n]) matches Some(v) ==> blocks_news(blocks, n + 1) == blocks_news(blocks, n).push(v),
        news_of_block(blocks[n]) is None ==> blocks_news(blocks, n + 1) == blocks_news(blocks, n),
{
}

/// The item of every block that has one is in the list, whatever blocks
/// come before or after it.
pub proof fn lemma_every_block_item_is_kept(blocks: Seq<HtmlElement>, n: int, i: int, v: NewsView)
    requires
        0 <= i < n <= blocks.len(),
        news_of_block(blocks[i]) == Some(v),
    ensures
        blocks_news(blocks, n).contains(v),
    decreases n - i,
{
    if n - 1 > i {
        lemma_every_block_item_is_kept(blocks, n - 1, i, v);
        let prev = blocks_news(blocks, n - 1);
        let k = choose|k: int| 0 <= k < prev.len() && prev[k] == v;
        match news_of_block(blocks[n - 1]) {
            Some(w) => {
                assert(prev.push(w)[k] == v);
            },
            None => {},
        }
    } else {
        assert(blocks_news(blocks, n).last() == v);
    }
}

/// Reads an item from its parts (see [`news_of_parts`]).
pub fn news_from_parts(
    title: &Option<HtmlElement>,
    banquan: &Option<HtmlElement>,
    miaoshu: &Option<HtmlElement>,
) -> (res: Option<News>)
    ensures
        news_opt_view(res) == news_of_parts(*title, *banquan, *miaoshu),
{
    let mut nes = News::default();
    let t = match title {
        Some(t) => t,
        None => return None,
    };
    let mut i: usize = 0;
    while i < t.attrs.len()
        invariant
            i <= t.attrs@.len(),
            nes@ == (NewsView { herf: or_empty(last_link_attr(t.attrs@, i as int)), ..empty_news() }),
        decreases t.attrs@.len() - i,
    {
        if str_equals(t.attrs[i].0.as_str(), "href") {
            nes.herf = t.attrs[i].1.clone();
        }
        if str_equals(t.attrs[i].0.as_str(), "title") {
            nes.herf = t.attrs[i].1.clone();
        }
        i = i + 1;
    }
    let b = match banquan {
        Some(b) => b,
        None => return None,
    };
    let ghost herf = nes@.herf;
    let mut j: usize = 0;
    while j < b.children.len()
        invariant
            j <= b.children@.len(),
            *banquan == Some(*b),
            *title == Some(*t),
            herf == or_empty(last_link_attr(t.attrs@, t.attrs@.len() as int)),
            forall|k: int| 0 <= k < j ==> has_child_if_element(#[trigger] b.children@[k]),
            nes@ == (NewsView {
                herf,
                copyright: if j > 0 { credit_copyright(b.children@) } else { Seq::empty() },
                created_at: credit_created_at(b.children@, j as int),
                ..empty_news()
            }),
        decreases b.children@.len() - j,
    {
        match &b.children[j] {
            HtmlNode::Element(e) => {
                if e.children.len() == 0 {
                    assert(!has_child_if_element(b.children@[j as int]));
                    assert(!credit_complete(b.children@));
                    return None;
                }
                let text = match &e.children[0] {
                    HtmlNode::Text(s) => s.clone(),
                    _ => String::new(),
                };
                if j == 0 {
                    nes.copyright = text;
                } else {
                    nes.created_at = text;
                }
            },
            _ => {},
        }
        j = j + 1;
    }
    let m = match miaoshu {
        Some(m) => m,
        None => return None,
    };
    match last_text_of(&m.children) {
        Some(s) => {
            nes.info = s;
        },
        None => {},
    }
    Some(nes)
}

/// Reads the item of one news block (see [`news_of_block`]).
pub fn parse_element(f: &HtmlElement) -> (res: Option<News>)
    ensures
        news_opt_view(res) == news_of_block(*f),
{
    proof { reveal_strlit(".title"); }
    let title = select_first(&f.children, ".title");
    if title.is_none() {
        return None;
    }
    proof { reveal_strlit(".banquan"); }
    let banquan = select_first(&f.children, ".banquan");
    if banquan.is_none() {
        return None;
    }
    proof { reveal_strlit(".miaoshu"); }
    let miaoshu = select_first(&f.children, ".miaoshu");
    news_from_parts(&title, &banquan, &miaoshu)
}

/// Reads the items of the blocks in order, leaving out the blocks that
/// have none.
pub fn news_from_blocks(blocks: &Vec<HtmlElement>) -> (res: Vec<News>)
    ensures
        news_view(res@) == blocks_news(blocks@, blocks@.len() as int),
{
    let mut news_list: Vec<News> = Vec::new();
    let mut i: usize = 0;
    while i < blocks.len()
        invariant
            i <= blocks@.len(),
            news_view(news_list@) == blocks_news(blocks@, i as int),
        decreases blocks@.len() - i,
    {
        let ghost before = news_list@;
        match parse_element(&blocks[i]) {
            Some(news) => {
                news_list.push(news);
                assert(news_view(news_list@) =~= news_view(before).push(news_list@.last()@));
            },
            None => {},
        }
        i = i + 1;
    }
    news_list
}

/// Reads the news list of a parsed page (see [`page_news`]). It always
/// succeeds.
pub fn get_news_list(html: &Vec<HtmlNode>) -> (res: Option<Vec<News>>)
    ensures
        res matches Some(list) && news_view(list@) == page_news(html@),
{
    proof { reveal_strlit(".left_list_box"); }
    let blocks = select_all(html, ".left_list_box");
    Some(news_from_blocks(&blocks))
}

/// The statement that stores one item in the news table of section `link`.
pub open spec fn news_insert_statement(news: NewsView, link: Seq<char>) -> Seq<char> {
    "INSERT INTO "@ + news_table(link) + "(herf,title,info,copyright,created_at)VALUES('"@
        + news.herf + "','"@ + news.title + "','"@ + news.info + "','"@ + news.copyright
        + "','"@ + news.created_at + "')"@
}

/// Builds the statement that stores `news` in the news table of the
/// section `table_name` (the values are put in as they are).
pub fn news_insert_sql(news: &News, table_name: &str) -> (res: String)
    ensures
        res@ == news_insert_statement(news@, table_name@),
{
    let mut sql = String::new();
    sql.append("INSERT INTO ");
    sql.append(table_name);
    sql.append("_news");
    sql.append("(herf,title,info,copyright,created_at)VALUES('");
    sql.append(news.herf.as_str());
    sql.append("','");
    sql.append(news.title.as_str());
    sql.append("','");
    sql.append(news.info.as_str());
    sql.append("','");
    sql.append(news.copyright.as_str());
    sql.append("','");
    sql.append(news.created_at.as_str());
    sql.append("')");
    assert(sql@ =~= news_insert_statement(news@, table_name@));
    sql
}

} // verus!
