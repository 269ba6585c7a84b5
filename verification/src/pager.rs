use vstd::prelude::*;
use vstd::string::*;

use crate::dom::{
    child_elements, element_select_first, element_selected_first, first_attr, first_attr_value,
    first_text, first_text_of, html_parse, parse_html, select_all, selected_all, HtmlElement,
    HtmlNode,
};
use crate::guard::{parse_is_safe, parse_safe};
use crate::nav::BASE_URL;
use crate::news::{get_news_list, news_view, page_news, News, NewsView};
use crate::text::{i32_from_decimal, parse_i32};

verus! {

/// The child elements of each element of `eles`, element after element.
pub open spec fn pager_children(eles: Seq<HtmlElement>) -> Seq<HtmlElement>
    decreases eles.len(),
{
    if eles.len() == 0 {
        Seq::empty()
    } else {
        child_elements(eles[0].children@) + pager_children(eles.drop_first())
    }
}

/// Takes the elements out of a node list, in order.
pub fn element_children_of(nodes: Vec<HtmlNode>) -> (res: Vec<HtmlElement>)
    ensures
        res@ == child_elements(nodes@),
{
    let ghost all = nodes@;
    let mut nodes = nodes;
    let mut out: Vec<HtmlElement> = Vec::new();
    while nodes.len() > 0
        invariant
            out@ + child_elements(nodes@) == child_elements(all),
        decreases nodes@.len(),
    {
        let ghost before = nodes@;
        let node = nodes.remove(0);
        assert(nodes@ =~= before.drop_first());
        match node {
            HtmlNode::Element(e) => {
                let ghost prev = out@;
                out.push(e);
                assert(out@ + child_elements(nodes@) =~= prev + child_elements(before));
            },
            _ => {},
        }
    }
    assert(out@ + child_elements(nodes@) =~= out@);
    out
}

/// Takes the child elements of each element, element after element.
pub fn pager_children_of(pagers: Vec<HtmlElement>) -> (res: Vec<HtmlElement>)
    ensures
        res@ == pager_children(pagers@),
{
    let ghost all = pagers@;
    let mut pagers = pagers;
    let mut out: Vec<HtmlElement> = Vec::new();
    while pagers.len() > 0
        invariant
            out@ + pager_children(pagers@) == pager_children(all),
        decreases pagers@.len(),
    {
        let ghost before = pagers@;
        let pager = pagers.remove(0);
        assert(pagers@ =~= before.drop_first());
        let ghost prev = out@;
        let mut kids = element_children_of(pager.children);
        out.append(&mut kids);
        assert(out@ + pager_children(pagers@) =~= prev + pager_children(before));
    }
    assert(out@ + pager_children(pagers@) =~= out@);
    out
}

/// What the first page of a section gives: its news items and the child
/// elements of its pager blocks (elements of class `pag_1`).
pub struct NavPage {
    pub news: Vec<News>,
    pub pagers: Vec<HtmlElement>,
}

/// The news items and the pager children of a section's first page, or
/// `None` where the page does not parse or the parser would panic on it.
pub open spec fn nav_page_of(text: Seq<char>) -> Option<(Seq<NewsView>, Seq<HtmlElement>)> {
    if !parse_safe(text) {
        None
    } else {
        match html_parse(text) {
            Ok(nodes) => Some((page_news(nodes), pager_children(selected_all(nodes, ".pag_1"@)))),
            Err(_) => None,
        }
    }
}

/// Reads a section's first page (see [`nav_page_of`]).
pub fn parse_nav_page(html_text: &str) -> (res: Option<NavPage>)
    ensures
        match res {
            Some(page) => nav_page_of(html_text@) == Some((news_view(page.news@), page.pagers@)),
            None => nav_page_of(html_text@) is None,
        },
{
    if !parse_is_safe(html_text) {
        return None;
    }
    match parse_html(html_text) {
        Ok(html) => {
            let news = match get_news_list(&html) {
                Some(list) => list,
                None => Vec::new(),
            };
            proof { reveal_strlit(".pag_1"); }
            let pag = select_all(&html, ".pag_1");
            let pagers = pager_children_of(pag);
            Some(NavPage { news, pagers })
        },
        Err(_) => None,
    }
}

/// Reads a page that follows a section's first page: its nodes, or `None`
/// where it does not parse or the parser would panic on it.
pub fn next_page_nodes(html_text: &str) -> (res: Option<Vec<HtmlNode>>)
    ensures
        match res {
            Some(nodes) => parse_safe(html_text@)
                && html_parse(html_text@) == Ok::<Seq<HtmlNode>, Seq<char>>(nodes@),
            None => !parse_safe(html_text@) || html_parse(html_text@) is Err,
        },
{
    if !parse_is_safe(html_text) {
        return None;
    }
    match parse_html(html_text) {
        Ok(nodes) => Some(nodes),
        Err(_) => None,
    }
}

/// Why the pager of a section cannot be followed.
#[derive(Debug, PartialEq, Eq)]
pub enum PagerError {
    /// The first text of a `strong` element of the pager is not a number.
    BadNumber,
    /// A `ntub` element of the pager holds no link.
    MissingAnchor,
}

/// The page count and the news count a pager announces in its first `n`
/// `strong` elements: the first one's first text is the page count, each
/// later one's first text the news count; elements without text leave the
/// counts as they are. `None` where such a text is not a number.
pub open spec fn strong_sizes(strongs: Seq<HtmlElement>, n: int) -> Option<(i32, i32)>
    decreases n,
{
    if n <= 0 {
        Some((0i32, 0i32))
    } else {
        match strong_sizes(strongs, n - 1) {
            None => None,
            Some((page_size, news_size)) => match first_text(
                strongs[n - 1].children@,
                strongs[n - 1].children@.len() as int,
            ) {
                None => Some((page_size, news_size)),
                Some(t) => match i32_from_decimal(t) {
                    None => None,
                    Some(v) => if n - 1 == 0 {
                        Some((v, news_size))
                    } else {
                        Some((page_size, v))
                    },
                },
            },
        }
    }
}

/// Reads the page count and the news count of a pager (see [`strong_sizes`]).
pub fn sizes_from_strongs(strongs: &Vec<HtmlElement>) -> (res: Option<(i32, i32)>)
    ensures
        res == strong_sizes(strongs@, strongs@.len() as int),
{
    let mut page_size: i32 = 0;
    let mut news_size: i32 = 0;
    let mut i: usize = 0;
    while i < strongs.len()
        invariant
            i <= strongs@.len(),
            strong_sizes(strongs@, i as int) == Some((page_size, news_size)),
        decreases strongs@.len() - i,
    {
        match first_text_of(&strongs[i].children) {
            Some(s) => match parse_i32(s.as_str()) {
                Some(v) => {
                    if i == 0 {
                        page_size = v;
                    } else {
                        news_size = v;
                    }
                },
                None => {
                    proof {
                        lemma_strong_sizes_fail(strongs@, i as int + 1, strongs@.len() as int);
                    }
                    return None;
                },
            },
            None => {},
        }
        i = i + 1;
    }
    Some((page_size, news_size))
}

proof fn lemma_strong_sizes_fail(strongs: Seq<HtmlElement>, n: int, m: int)
    requires
        n <= m,
        strong_sizes(strongs, n) is None,
    ensures
        strong_sizes(strongs, m) is None,
    decreases m - n,
{
    if n < m {
        lemma_strong_sizes_fail(strongs, n, m - 1);
    }
}

/// The link the pager points to, from the first `n` results of looking for
/// a link in each `ntub` element: the first `href` of the last link that
/// has one, or the empty string. `None` where an element holds no link.
pub open spec fn href_of_anchors(anchors: Seq<Option<HtmlElement>>, n: int) -> Option<Seq<char>>
    decreases n,
{
    if n <= 0 {
        Some(Seq::empty())
    } else {
        match href_of_anchors(anchors, n - 1) {
            None => None,
            Some(h) => match anchors[n - 1] {
                None => None,
                Some(a) => match first_attr_value(a.attrs@, "href"@, a.attrs@.len() as int) {
                    Some(v) => Some(v),
                    None => Some(h),
                },
            },
        }
    }
}

proof fn lemma_href_some(anchors: Seq<Option<HtmlElement>>, n: int)
    requires
        0 <= n <= anchors.len(),
        forall|j: int| 0 <= j < n ==> #[trigger] anchors[j] is Some,
    ensures
        href_of_anchors(anchors, n) is Some,
    decreases n,
{
    if n > 0 {
        lemma_href_some(anchors, n - 1);
    }
}

proof fn lemma_href_kept(anchors: Seq<Option<HtmlElement>>, n: int, i: int, v: Seq<char>)
    requires
        0 <= i < n <= anchors.len(),
        href_of_anchors(anchors, i + 1) == Some(v),
        forall|j: int| i < j < anchors.len() ==> (#[trigger] anchors[j] matches Some(b)
            && first_attr_value(b.attrs@, "href"@, b.attrs@.len() as int) is None),
    ensures
        href_of_anchors(anchors, n) == Some(v),
    decreases n - i,
{
    if n - 1 > i {
        lemma_href_kept(anchors, n - 1, i, v);
        assert(anchors[n - 1] matches Some(b) && first_attr_value(b.attrs@, "href"@, b.attrs@.len() as int) is None);
    }
}

/// Where every `ntub` element holds a link, the pager points to the first
/// `href` of the last link that has one: a link with an `href` replaces
/// whatever an earlier link gave.
pub proof fn lemma_pager_link_is_last_href(anchors: Seq<Option<HtmlElement>>, i: int, a: HtmlElement, v: Seq<char>)
    requires
        0 <= i < anchors.len(),
        forall|j: int| 0 <= j < anchors.len() ==> #[trigger] anchors[j] is Some,
        anchors[i] == Some(a),
        first_attr_value(a.attrs@, "href"@, a.attrs@.len() as int) == Some(v),
        forall|j: int| i < j < anchors.len() ==> (#[trigger] anchors[j] matches Some(b)
            && first_attr_value(b.attrs@, "href"@, b.attrs@.len() as int) is None),
    ensures
        href_of_anchors(anchors, anchors.len() as int) == Some(v),
{
    lemma_href_some(anchors, i);
    lemma_href_kept(anchors, anchors.len() as int, i, v);
}

/// Where every `ntub` element holds a link but none of them has an `href`,
/// the pager points to the empty link.
pub proof fn lemma_pager_link_without_href(anchors: Seq<Option<HtmlElement>>, n: int)
    requires
        0 <= n <= anchors.len(),
        forall|j: int| 0 <= j < n ==> (#[trigger] anchors[j] matches Some(b)
            && first_attr_value(b.attrs@, "href"@, b.attrs@.len() as int) is None),
    ensures
        href_of_anchors(anchors, n) == Some(Seq::<char>::empty()),
    decreases n,
{
    if n > 0 {
        lemma_pager_link_without_href(anchors, n - 1);
        assert(anchors[n - 1] matches Some(b) && first_attr_value(b.attrs@, "href"@, b.attrs@.len() as int) is None);
    }
}

/// The results of looking for a link (`Queryable::query` with `a`) in
/// each of the `ntub` elements.
pub open spec fn page_anchors(page_list: Seq<HtmlElement>) -> Seq<Option<HtmlElement>> {
    page_list.map_values(|e: HtmlElement| element_selected_first(e, "a"@))
}

/// Reads the link the pager points to (see [`href_of_anchors`]).
pub fn href_from_anchors(anchors: &Vec<Option<HtmlElement>>) -> (res: Option<String>)
    ensures
        match res {
            Some(h) => href_of_anchors(anchors@, anchors@.len() as int) == Some(h@),
            None => href_of_anchors(anchors@, anchors@.len() as int) is None,
        },
{
    let mut next_href = String::new();
    let mut i: usize = 0;
    while i < anchors.len()
        invariant
            i <= anchors@.len(),
            href_of_anchors(anchors@, i as int) == Some(next_href@),
        decreases anchors@.len() - i,
    {
        match &anchors[i] {
            Some(a) => match first_attr(&a.attrs, "href") {
                Some(v) => {
                    next_href = v;
                },
                None => {},
            },
            None => {
                proof {
                    lemma_href_fail(anchors@, i as int + 1, anchors@.len() as int);
                }
                return None;
            },
        }
        i = i + 1;
    }
    Some(next_href)
}

proof fn lemma_href_fail(anchors: Seq<Option<HtmlElement>>, n: int, m: int)
    requires
        n <= m,
        href_of_anchors(anchors, n) is None,
    ensures
        href_of_anchors(anchors, m) is None,
    decreases m - n,
{
    if n < m {
        lemma_href_fail(anchors, n, m - 1);
    }
}

/// Looks for a link in each `ntub` element and reads the link the pager
/// points to.
pub fn next_href(page_list: &Vec<HtmlElement>) -> (res: Option<String>)
    ensures
        match res {
            Some(h) => href_of_anchors(page_anchors(page_list@), page_list@.len() as int) == Some(h@),
            None => href_of_anchors(page_anchors(page_list@), page_list@.len() as int) is None,
        },
{
    let mut anchors: Vec<Option<HtmlElement>> = Vec::new();
    let mut i: usize = 0;
    while i < page_list.len()
        invariant
            i <= page_list@.len(),
            anchors@ =~= page_anchors(page_list@.take(i as int)),
        decreases page_list@.len() - i,
    {
        proof { reveal_strlit("a"); }
        let a = element_select_first(&page_list[i], "a");
        anchors.push(a);
        assert(page_list@.take(i as int + 1) =~= page_list@.take(i as int).push(page_list@[i as int]));
        i = i + 1;
    }
    assert(page_list@.take(page_list@.len() as int) =~= page_list@);
    href_from_anchors(&anchors)
}

/// The walk through the following pages of a section: the section's link,
/// the counts its pager announces, the page to fetch next and the link the
/// pager points to.
pub struct PageCrawl {
    pub link: String,
    pub page_size: i32,
    pub news_size: i32,
    pub count: i32,
    pub next_href: String,
}

/// The contents of a [`PageCrawl`].
pub struct CrawlView {
    pub link: Seq<char>,
    pub page_size: i32,
    pub news_size: i32,
    pub count: int,
    pub next_href: Seq<char>,
}

impl View for PageCrawl {
    type V = CrawlView;

    open spec fn view(&self) -> CrawlView {
        CrawlView {
            link: self.link@,
            page_size: self.page_size,
            news_size: self.news_size,
            count: self.count as int,
            next_href: self.next_href@,
        }
    }
}

/// How the walk through a pager starts, for a pager element `f` of the
/// section `link`: the counts come from what `Queryable::query_all` finds
/// among `f`'s children for `strong`; the walk starts at page 2; unless the
/// page count is 0 or 2 (no page to fetch), the link comes from the `ntub`
/// elements among `f`'s children.
pub open spec fn crawl_start(f: HtmlElement, link: Seq<char>) -> Result<CrawlView, PagerError> {
    let strongs = selected_all(f.children@, "strong"@);
    match strong_sizes(strongs, strongs.len() as int) {
        None => Err(PagerError::BadNumber),
        Some((page_size, news_size)) => if page_size != 0 && page_size != 2 {
            let page_list = selected_all(f.children@, ".ntub"@);
            match href_of_anchors(page_anchors(page_list), page_list.len() as int) {
                None => Err(PagerError::MissingAnchor),
                Some(h) => Ok(CrawlView { link, page_size, news_size, count: 2, next_href: h }),
            }
        } else {
            Ok(CrawlView { link, page_size, news_size, count: 2, next_href: Seq::empty() })
        },
    }
}

/// What the walk does next: nothing more once the page count is 0 or the
/// page to fetch has reached it; else fetch the page at the site's address
/// followed by the section's link, `/` and the pager's link.
pub open spec fn crawl_step(c: CrawlView) -> Option<(Seq<char>, int)> {
    if c.page_size == 0 || c.page_size == c.count {
        None
    } else {
        Some((BASE_URL@ + c.link + "/"@ + c.next_href, c.count))
    }
}

/// The walk after one page was fetched.
pub open spec fn crawl_advanced(c: CrawlView) -> CrawlView {
    CrawlView { count: c.count + 1, ..c }
}

/// The walk after `k` pages were fetched.
pub open spec fn crawl_advanced_by(c: CrawlView, k: nat) -> CrawlView
    decreases k,
{
    if k == 0 {
        c
    } else {
        crawl_advanced(crawl_advanced_by(c, (k - 1) as nat))
    }
}

/// The pages the walk fetches in at most `fuel` steps, in order.
pub open spec fn crawl_pages(c: CrawlView, fuel: nat) -> Seq<int>
    decreases fuel,
{
    if fuel == 0 {
        Seq::empty()
    } else {
        match crawl_step(c) {
            None => Seq::empty(),
            Some((_, page)) => seq![page] + crawl_pages(crawl_advanced(c), (fuel - 1) as nat),
        }
    }
}

/// What to do next in the walk through a pager.
pub enum CrawlStep {
    /// Fetch the page at `url`, the `page`-th of the section.
    Fetch { url: String, page: i32 },
    /// There is no page left to fetch.
    Done,
}

impl PageCrawl {
    /// Starts the walk through the pager element `f` of the section `link`
    /// (see [`crawl_start`]). Where a count is not a number, or a `ntub`
    /// element holds no link although a page is to be fetched, the program
    /// panics (it unwraps the parse and the search); this function returns
    /// [`PagerError::BadNumber`] or [`PagerError::MissingAnchor`] there
    /// instead, and the program turns them into that panic. The condition
    /// depends on what the `html_editor` queries return, which a caller
    /// learns only from this call, so it is reported rather than required.
    pub fn start(f: &HtmlElement, link: &str) -> (res: Result<PageCrawl, PagerError>)
        ensures
            match res {
                Ok(c) => crawl_start(*f, link@) == Ok::<CrawlView, PagerError>(c@),
                Err(e) => crawl_start(*f, link@) == Err::<CrawlView, PagerError>(e),
            },
    {
        proof { reveal_strlit(".ntub"); }
        let page_list = select_all(&f.children, ".ntub");
        proof { reveal_strlit("strong"); }
        let strongs = select_all(&f.children, "strong");
        let (page_size, news_size) = match sizes_from_strongs(&strongs) {
            Some(sizes) => sizes,
            None => return Err(PagerError::BadNumber),
        };
        let mut crawl_link = String::new();
        crawl_link.append(link);
        if page_size != 0 && page_size != 2 {
            match next_href(&page_list) {
                Some(h) => Ok(PageCrawl { link: crawl_link, page_size, news_size, count: 2, next_href: h }),
                None => Err(PagerError::MissingAnchor),
            }
        } else {
            Ok(PageCrawl { link: crawl_link, page_size, news_size, count: 2, next_href: String::new() })
        }
    }

    /// Decides what to do next (see [`crawl_step`]).
    pub fn next_action(&self) -> (res: CrawlStep)
        ensures
            match res {
                CrawlStep::Fetch { url, page } => crawl_step(self@) == Some((url@, page as int)),
                CrawlStep::Done => crawl_step(self@) is None,
            },
    {
        if self.page_size == 0 || self.page_size == self.count {
            CrawlStep::Done
        } else {
            let mut url = String::new();
            url.append(BASE_URL);
            url.append(self.link.as_str());
            url.append("/");
            url.append(self.next_href.as_str());
            CrawlStep::Fetch { url, page: self.count }
        }
    }

    /// Moves on to the next page.
    pub fn advance(&mut self)
        requires
            old(self).count < i32::MAX,
        ensures
            final(self)@ == crawl_advanced(old(self)@),
    {
        self.count = self.count + 1;
    }
}

proof fn lemma_advanced_by_count(c: CrawlView, k: nat)
    ensures
        crawl_advanced_by(c, k) == (CrawlView { count: c.count + k, ..c }),
    decreases k,
{
    if k > 0 {
        lemma_advanced_by_count(c, (k - 1) as nat);
    }
}

proof fn lemma_pages_from(c: CrawlView, k: nat)
    requires
        c.page_size != 0,
        c.count + k == c.page_size,
    ensures
        crawl_pages(c, k) == Seq::new(k, |i: int| c.count + i),
        crawl_step(crawl_advanced_by(c, k)) is None,
    decreases k,
{
    lemma_advanced_by_count(c, k);
    if k > 0 {
        lemma_pages_from(crawl_advanced(c), (k - 1) as nat);
        assert(crawl_pages(c, k) =~= Seq::new(k, |i: int| c.count + i));
    }
}

/// A walk that starts at page 2 of `page_size` pages (at least 2) fetches
/// exactly the pages 2, 3, ..., `page_size - 1`, in this order, and then stops.
pub proof fn lemma_crawl_fetches_following_pages(c: CrawlView)
    requires
        c.count == 2,
        c.page_size >= 2,
    ensures
        crawl_pages(c, (c.page_size - 2) as nat) == Seq::new((c.page_size - 2) as nat, |i: int| i + 2),
        crawl_step(crawl_advanced_by(c, (c.page_size - 2) as nat)) is None,
{
    lemma_pages_from(c, (c.page_size - 2) as nat);
    assert(crawl_pages(c, (c.page_size - 2) as nat) =~= Seq::new((c.page_size - 2) as nat, |i: int| i + 2));
}

/// A pager that announces no page count (0) fetches nothing.
pub proof fn lemma_crawl_without_pages(c: CrawlView)
    requires
        c.page_size == 0,
    ensures
        crawl_step(c) is None,
{
}

/// A walk that starts at page 2 of fewer than 2 pages (but not 0) never
/// stops by itself: every step fetches a page.
pub proof fn lemma_crawl_never_ends_below_two(c: CrawlView, k: nat)
    requires
        c.count == 2,
        c.page_size < 2,
        c.page_size != 0,
    ensures
        crawl_step(crawl_advanced_by(c, k)) == Some((BASE_URL@ + c.link + "/"@ + c.next_href, 2 + k as int)),
{
    lemma_advanced_by_count(c, k);
}

} // verus!
