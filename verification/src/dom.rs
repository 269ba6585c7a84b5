use vstd::prelude::*;
use html_editor::operation::Queryable;
use crate::text::str_equals;
use crate::guard::parse_safe;

verus! {

/// The document type declaration at the head of a page.
pub enum DocType {
    Html,
    Xml { version: String, encoding: String },
}

/// A node of a parsed page.
pub enum HtmlNode {
    Element(HtmlElement),
    Text(String),
    Comment(String),
    Doctype(DocType),
}

/// An element of a parsed page: its tag name, its attributes in the
/// order the parser gives them, and its child nodes.
pub struct HtmlElement {
    pub name: String,
    pub attrs: Vec<(String, String)>,
    pub children: Vec<HtmlNode>,
}

/// The string in `o`, or the empty string.
pub open spec fn or_empty(o: Option<Seq<char>>) -> Seq<char> {
    match o {
        Some(s) => s,
        None => Seq::empty(),
    }
}

/// The value of the last attribute named `key` among the first `n` attributes.
pub open spec fn last_attr_value(attrs: Seq<(String, String)>, key: Seq<char>, n: int) -> Option<Seq<char>>
    decreases n,
{
    if n <= 0 {
        None
    } else if attrs[n - 1].0@ == key {
        Some(attrs[n - 1].1@)
    } else {
        last_attr_value(attrs, key, n - 1)
    }
}

/// The value of the first attribute named `key` among the first `n` attributes.
pub open spec fn first_attr_value(attrs: Seq<(String, String)>, key: Seq<char>, n: int) -> Option<Seq<char>>
    decreases n,
{
    if n <= 0 {
        None
    } else {
        match first_attr_value(attrs, key, n - 1) {
            Some(v) => Some(v),
            None => if attrs[n - 1].0@ == key {
                Some(attrs[n - 1].1@)
            } else {
                None
            },
        }
    }
}

/// The content of the last text node among the first `n` nodes.
pub open spec fn last_text(nodes: Seq<HtmlNode>, n: int) -> Option<Seq<char>>
    decreases n,
{
    if n <= 0 {
        None
    } else {
        match nodes[n - 1] {
            HtmlNode::Text(s) => Some(s@),
            _ => last_text(nodes, n - 1),
        }
    }
}

/// Among the first `n` nodes, the last text node is the one at `i` when no
/// text node follows it.
pub proof fn lemma_last_text_at(nodes: Seq<HtmlNode>, n: int, i: int, t: String)
    requires
        0 <= i < n <= nodes.len(),
        nodes[i] == HtmlNode::Text(t),
        forall|j: int| i < j < n ==> !(#[trigger] nodes[j] is Text),
    ensures
        last_text(nodes, n) == Some(t@),
    decreases n - i,
{
    if n - 1 > i {
        lemma_last_text_at(nodes, n - 1, i, t);
    }
}

/// Among the first `n` nodes there is no last text node when none of them
/// is a text node.
pub proof fn lemma_no_last_text(nodes: Seq<HtmlNode>, n: int)
    requires
        0 <= n <= nodes.len(),
        forall|j: int| 0 <= j < n ==> !(#[trigger] nodes[j] is Text),
    ensures
        last_text(nodes, n) is None,
    decreases n,
{
    if n > 0 {
        lemma_no_last_text(nodes, n - 1);
    }
}

/// The content of the first text node among the first `n` nodes.
pub open spec fn first_text(nodes: Seq<HtmlNode>, n: int) -> Option<Seq<char>>
    decreases n,
{
    if n <= 0 {
        None
    } else {
        match first_text(nodes, n - 1) {
            Some(s) => Some(s),
            None => match nodes[n - 1] {
                HtmlNode::Text(s) => Some(s@),
                _ => None,
            },
        }
    }
}

/// The elements among `nodes`, in order.
pub open spec fn child_elements(nodes: Seq<HtmlNode>) -> Seq<HtmlElement>
    decreases nodes.len(),
{
    if nodes.len() == 0 {
        Seq::empty()
    } else {
        let rest = child_elements(nodes.drop_first());
        match nodes[0] {
            HtmlNode::Element(e) => seq![e] + rest,
            _ => rest,
        }
    }
}

/// `html_editor::Node`, which the conversions above and below take or give.
#[verifier::external_type_specification]
#[verifier::external_body]
pub struct ExternalNode(html_editor::Node);

/// `html_editor::Element`, which the conversions take or give.
#[verifier::external_type_specification]
#[verifier::external_body]
pub struct ExternalElement(html_editor::Element);

/// What `html_editor::parse` gives back for a text: the nodes or the message.
pub uninterp spec fn html_parse(text: Seq<char>) -> Result<Seq<HtmlNode>, Seq<char>>;

/// Whether `Selector::from(selector)` of `html_editor` matches `element`
/// (`Selector::matches`, which reads the element's name and its `class` and
/// `id` attributes).
pub uninterp spec fn selector_matches(element: HtmlElement, selector: Seq<char>) -> bool;

/// The elements of the tree of `element` that `selector` matches, as
/// `Queryable::query_all` of an element walks it: those of the children's
/// trees in order, then the element itself.
pub open spec fn element_selected_all(element: HtmlElement, selector: Seq<char>) -> Seq<HtmlElement>
    decreases element,
{
    proof {
        assert(decreases_to!(element => element.children));
        assert(decreases_to!(element.children => element.children@));
    }
    selected_all(element.children@, selector) + if selector_matches(element, selector) {
        seq![element]
    } else {
        Seq::empty()
    }
}

/// The elements of the trees of `nodes` that `selector` matches, as
/// `Queryable::query_all` of a node list walks them: tree by tree.
pub open spec fn selected_all(nodes: Seq<HtmlNode>, selector: Seq<char>) -> Seq<HtmlElement>
    decreases nodes,
{
    if nodes.len() == 0 {
        Seq::empty()
    } else {
        let rest = selected_all(nodes.subrange(1, nodes.len() as int), selector);
        match nodes[0] {
            HtmlNode::Element(e) => {
                proof {
                    assert(decreases_to!(nodes => nodes[0]));
                }
                element_selected_all(e, selector) + rest
            },
            _ => rest,
        }
    }
}

/// The first element of the tree of `element` that `selector` matches, as
/// `Queryable::query` of an element looks for it: the element itself, then
/// the children's trees in order.
pub open spec fn element_selected_first(element: HtmlElement, selector: Seq<char>) -> Option<HtmlElement>
    decreases element,
{
    if selector_matches(element, selector) {
        Some(element)
    } else {
        proof {
            assert(decreases_to!(element => element.children));
            assert(decreases_to!(element.children => element.children@));
        }
        selected_first(element.children@, selector)
    }
}

/// The first element of the trees of `nodes` that `selector` matches, as
/// `Queryable::query` of a node list looks for it: tree by tree.
pub open spec fn selected_first(nodes: Seq<HtmlNode>, selector: Seq<char>) -> Option<HtmlElement>
    decreases nodes,
{
    if nodes.len() == 0 {
        None
    } else {
        let here = match nodes[0] {
            HtmlNode::Element(e) => {
                proof {
                    assert(decreases_to!(nodes => nodes[0]));
                }
                element_selected_first(e, selector)
            },
            _ => None,
        };
        match here {
            Some(found) => Some(found),
            None => selected_first(nodes.subrange(1, nodes.len() as int), selector),
        }
    }
}

/// Converts a node of `html_editor` into a [`HtmlNode`], field for field;
/// nothing is claimed of it.
#[verifier::external_body]
fn node_from_outside(node: &html_editor::Node) -> HtmlNode {
    match node {
        html_editor::Node::Element(e) => HtmlNode::Element(element_from_outside(e)),
        html_editor::Node::Text(s) => HtmlNode::Text(s.clone()),
        html_editor::Node::Comment(s) => HtmlNode::Comment(s.clone()),
        html_editor::Node::Doctype(html_editor::Doctype::Html) => HtmlNode::Doctype(DocType::Html),
        html_editor::Node::Doctype(html_editor::Doctype::Xml { version, encoding }) => {
            HtmlNode::Doctype(DocType::Xml { version: version.clone(), encoding: encoding.clone() })
        },
    }
}

/// Converts an element of `html_editor` into a [`HtmlElement`], field for
/// field; nothing is claimed of it.
#[verifier::external_body]
fn element_from_outside(e: &html_editor::Element) -> HtmlElement {
    HtmlElement {
        name: e.name.clone(),
        attrs: e.attrs.clone(),
        children: e.children.iter().map(node_from_outside).collect(),
    }
}

/// Converts a [`HtmlNode`] into a node of `html_editor`, field for field;
/// nothing is claimed of it.
#[verifier::external_body]
fn node_to_outside(node: &HtmlNode) -> html_editor::Node {
    match node {
        HtmlNode::Element(e) => html_editor::Node::Element(element_to_outside(e)),
        HtmlNode::Text(s) => html_editor::Node::Text(s.clone()),
        HtmlNode::Comment(s) => html_editor::Node::Comment(s.clone()),
        HtmlNode::Doctype(DocType::Html) => html_editor::Node::Doctype(html_editor::Doctype::Html),
        HtmlNode::Doctype(DocType::Xml { version, encoding }) => {
            html_editor::Node::Doctype(html_editor::Doctype::Xml { version: version.clone(), encoding: encoding.clone() })
        },
    }
}

/// Converts a [`HtmlElement`] into an element of `html_editor`, field for
/// field; nothing is claimed of it.
#[verifier::external_body]
fn element_to_outside(e: &HtmlElement) -> html_editor::Element {
    html_editor::Element {
        name: e.name.clone(),
        attrs: e.attrs.clone(),
        children: e.children.iter().map(node_to_outside).collect(),
    }
}

/// The value of the last attribute named `key`, if any.
pub fn last_attr(attrs: &Vec<(String, String)>, key: &str) -> (res: Option<String>)
    ensures
        match res {
            Some(v) => last_attr_value(attrs@, key@, attrs@.len() as int) == Some(v@),
            None => last_attr_value(attrs@, key@, attrs@.len() as int) is None,
        },
{
    let mut found: Option<String> = None;
    let mut i: usize = 0;
    while i < attrs.len()
        invariant
            i <= attrs@.len(),
            match found {
                Some(v) => last_attr_value(attrs@, key@, i as int) == Some(v@),
                None => last_attr_value(attrs@, key@, i as int) is None,
            },
        decreases attrs@.len() - i,
    {
        if str_equals(attrs[i].0.as_str(), key) {
            found = Some(attrs[i].1.clone());
        }
        i = i + 1;
    }
    found
}

/// The value of the first attribute named `key`, if any.
pub fn first_attr(attrs: &Vec<(String, String)>, key: &str) -> (res: Option<String>)
    ensures
        match res {
            Some(v) => first_attr_value(attrs@, key@, attrs@.len() as int) == Some(v@),
            None => first_attr_value(attrs@, key@, attrs@.len() as int) is None,
        },
{
    let mut i: usize = 0;
    while i < attrs.len()
        invariant
            i <= attrs@.len(),
            first_attr_value(attrs@, key@, i as int) is None,
        decreases attrs@.len() - i,
    {
        if str_equals(attrs[i].0.as_str(), key) {
            proof {
                lemma_first_attr_stable(attrs@, key@, i as int + 1, attrs@.len() as int);
            }
            return Some(attrs[i].1.clone());
        }
        i = i + 1;
    }
    None
}

proof fn lemma_first_attr_stable(attrs: Seq<(String, String)>, key: Seq<char>, n: int, m: int)
    requires
        n <= m,
        first_attr_value(attrs, key, n) is Some,
    ensures
        first_attr_value(attrs, key, m) == first_attr_value(attrs, key, n),
    decreases m - n,
{
    if n < m {
        lemma_first_attr_stable(attrs, key, n, m - 1);
    }
}

/// The content of the last text node, if any.
pub fn last_text_of(nodes: &Vec<HtmlNode>) -> (res: Option<String>)
    ensures
        match res {
            Some(v) => last_text(nodes@, nodes@.len() as int) == Some(v@),
            None => last_text(nodes@, nodes@.len() as int) is None,
        },
{
    let mut found: Option<String> = None;
    let mut i: usize = 0;
    while i < nodes.len()
        invariant
            i <= nodes@.len(),
            match found {
                Some(v) => last_text(nodes@, i as int) == Some(v@),
                None => last_text(nodes@, i as int) is None,
            },
        decreases nodes@.len() - i,
    {
        match &nodes[i] {
            HtmlNode::Text(s) => {
                found = Some(s.clone());
            },
            _ => {},
        }
        i = i + 1;
    }
    found
}

/// The content of the first text node, if any.
pub fn first_text_of(nodes: &Vec<HtmlNode>) -> (res: Option<String>)
    ensures
        match res {
            Some(v) => first_text(nodes@, nodes@.len() as int) == Some(v@),
            None => first_text(nodes@, nodes@.len() as int) is None,
        },
{
    let mut i: usize = 0;
    while i < nodes.len()
        invariant
            i <= nodes@.len(),
            first_text(nodes@, i as int) is None,
        decreases nodes@.len() - i,
    {
        match &nodes[i] {
            HtmlNode::Text(s) => {
                proof {
                    lemma_first_text_stable(nodes@, i as int + 1, nodes@.len() as int);
                }
                return Some(s.clone());
            },
            _ => {},
        }
        i = i + 1;
    }
    None
}

proof fn lemma_first_text_stable(nodes: Seq<HtmlNode>, n: int, m: int)
    requires
        n <= m,
        first_text(nodes, n) is Some,
    ensures
        first_text(nodes, m) == first_text(nodes, n),
    decreases m - n,
{
    if n < m {
        lemma_first_text_stable(nodes, n, m - 1);
    }
}

/// Calls `html_editor::parse` and converts its nodes one for one into
/// [`HtmlNode`]s. The contract claims only that the result is
/// [`html_parse`] of the text, a function of the text alone. The crate's
/// tokenizer panics on some texts (its source has `panic!`, `expect` and
/// slicing there); `requires` admits only the texts that
/// [`parse_safe`] accepts, on which none of these is reached.
#[verifier::external_body]
pub fn parse_html(text: &str) -> (res: Result<Vec<HtmlNode>, String>)
    requires
        parse_safe(text@),
    ensures
        match res {
            Ok(nodes) => html_parse(text@) == Ok::<Seq<HtmlNode>, Seq<char>>(nodes@),
            Err(msg) => html_parse(text@) == Err::<Seq<HtmlNode>, Seq<char>>(msg@),
        },
{
    match html_editor::parse(text) {
        Ok(nodes) => Ok(nodes.iter().map(node_from_outside).collect()),
        Err(msg) => Err(msg),
    }
}

/// Calls `Queryable::query_all` of `html_editor` on a node list (as
/// `Vec<Node>`) with `Selector::from(selector)`, and converts the elements
/// found. `Selector::from` slices the selector by byte offsets taken as
/// character counts, so only ASCII selectors are admitted. The contract
/// claims the walk of the crate's source ([`selected_all`]); which elements
/// the selector matches is only named ([`selector_matches`]).
#[verifier::external_body]
pub fn select_all(nodes: &Vec<HtmlNode>, selector: &str) -> (res: Vec<HtmlElement>)
    requires
        selector.is_ascii(),
    ensures
        res@ == selected_all(nodes@, selector@),
        forall|i: int| 0 <= i < res@.len() ==> selector_matches(#[trigger] res@[i], selector@),
{
    let outside: Vec<html_editor::Node> = nodes.iter().map(node_to_outside).collect();
    outside.query_all(&html_editor::operation::Selector::from(selector)).into_iter().map(element_from_outside).collect()
}

/// Calls `Queryable::query` of `html_editor` on a node list (as
/// `Vec<Node>`) with `Selector::from(selector)`, and converts the element
/// found. Only ASCII selectors are admitted (see [`select_all`]). The
/// contract claims the search order of the crate's source
/// ([`selected_first`]); which elements the selector matches is only named.
#[verifier::external_body]
pub fn select_first(nodes: &Vec<HtmlNode>, selector: &str) -> (res: Option<HtmlElement>)
    requires
        selector.is_ascii(),
    ensures
        res == selected_first(nodes@, selector@),
        res matches Some(e) ==> selector_matches(e, selector@),
{
    let outside: Vec<html_editor::Node> = nodes.iter().map(node_to_outside).collect();
    outside.query(&html_editor::operation::Selector::from(selector)).map(element_from_outside)
}

/// Calls `Queryable::query_all` of `html_editor` on one element and
/// converts the elements found. Only ASCII selectors are admitted (see
/// [`select_all`]). The contract claims the walk of the crate's source
/// ([`element_selected_all`]); which elements the selector matches is only
/// named.
#[verifier::external_body]
pub fn element_select_all(element: &HtmlElement, selector: &str) -> (res: Vec<HtmlElement>)
    requires
        selector.is_ascii(),
    ensures
        res@ == element_selected_all(*element, selector@),
        forall|i: int| 0 <= i < res@.len() ==> selector_matches(#[trigger] res@[i], selector@),
{
    element_to_outside(element).query_all(&html_editor::operation::Selector::from(selector)).into_iter().map(element_from_outside).collect()
}

/// Calls `Queryable::query` of `html_editor` on one element and converts
/// the element found. Only ASCII selectors are admitted (see
/// [`select_all`]). The contract claims the search order of the crate's
/// source ([`element_selected_first`]); which elements the selector matches
/// is only named.
#[verifier::external_body]
pub fn element_select_first(element: &HtmlElement, selector: &str) -> (res: Option<HtmlElement>)
    requires
        selector.is_ascii(),
    ensures
        res == element_selected_first(*element, selector@),
        res matches Some(e) ==> selector_matches(e, selector@),
{
    element_to_outside(element).query(&html_editor::operation::Selector::from(selector)).map(element_from_outside)
}

} // verus!
