//! Small request bodies in XML, looked into by local name, so that any prefix
//! matches.

use vstd::prelude::*;
use vstd::utf8::encode_utf8;

use crate::text::{
    chars_of, find_at, find_from, matches_at, opt_view, same, stands_at, trim,
    trimmed, views,
};

verus! {

/// Bodies larger than this are not parsed.
pub const MAX_BODY: usize = 1_048_576;

/// Bodies whose elements nest deeper than this are not parsed.
pub const MAX_DEPTH: usize = 128;

/// `xmltree::Element`, an element with its attributes and children.
#[verifier::external_type_specification]
#[verifier::external_body]
pub struct ExElement(xmltree::Element);

/// An element: its local name, its attributes by local name, its text, and
/// its child nodes, of which only elements are told apart.
pub struct Tree {
    pub name: Seq<char>,
    pub attributes: Map<Seq<char>, Seq<char>>,
    pub text: Option<Seq<char>>,
    pub nodes: Seq<Option<Tree>>,
}

/// What an element holds.
pub uninterp spec fn tree_of(el: xmltree::Element) -> Tree;

/// The root element of a document; nothing where the text is not one.
pub uninterp spec fn document_tree(s: Seq<char>) -> Option<Tree>;

/// Where the start tag around position `i` ends: its first `>` outside
/// quotes. A quoted value may hold `</` but no other `<`; outside quotes
/// there is none.
pub open spec fn tag_end(s: Seq<char>, i: int, quote: Option<char>) -> Option<int>
    decreases s.len() - i,
{
    if i < 0 || i >= s.len() {
        None
    } else {
        match quote {
            Some(q) => if s[i] == q {
                tag_end(s, i + 1, None)
            } else if s[i] != '<' {
                tag_end(s, i + 1, quote)
            } else if i + 1 < s.len() && s[i + 1] == '/' {
                tag_end(s, i + 2, quote)
            } else {
                None
            },
            None => if s[i] == '>' {
                Some(i)
            } else if s[i] == '<' {
                None
            } else if s[i] == '"' || s[i] == '\'' {
                tag_end(s, i + 1, Some(s[i]))
            } else {
                tag_end(s, i + 1, None)
            },
        }
    }
}

/// Where the declaration around position `i` ends. One that holds other
/// markup, declarations of its own or a quoted `>` has no end here.
pub open spec fn declaration_end(s: Seq<char>, i: int, quote: Option<char>) -> Option<int>
    decreases s.len() - i,
{
    if i < 0 || i >= s.len() || s[i] == '<' {
        None
    } else {
        match quote {
            Some(q) => if s[i] == q {
                declaration_end(s, i + 1, None)
            } else if s[i] == '>' {
                None
            } else {
                declaration_end(s, i + 1, quote)
            },
            None => if s[i] == '>' {
                Some(i)
            } else if s[i] == '[' {
                None
            } else if s[i] == '"' || s[i] == '\'' {
                declaration_end(s, i + 1, Some(s[i]))
            } else {
                declaration_end(s, i + 1, None)
            },
        }
    }
}

/// What the text has at a position, and where the scan goes on.
pub enum Mark {
    /// Nothing that opens or closes an element, up to the position given.
    Pass(int),
    /// A tag that is an element of its own.
    Empty(int),
    /// A start tag.
    Open(int),
    /// An end tag.
    Close(int),
    /// Markup that never ends, or that could bring in more markup.
    Stop,
}

/// Past the first `close` at or after `from`.
pub open spec fn past(s: Seq<char>, from: int, close: Seq<char>) -> Mark {
    match find_from(s, close, from) {
        Some(j) => Mark::Pass(j + close.len()),
        None => Mark::Stop,
    }
}

/// What the text has at position `i`: a comment, character data, a processing
/// instruction, a declaration, a tag or a character of text.
pub open spec fn mark_at(s: Seq<char>, i: int) -> Mark {
    if s[i] != '<' {
        Mark::Pass(i + 1)
    } else if matches_at(s, "<!--"@, i) {
        past(s, i + 4, "-->"@)
    } else if matches_at(s, "<![CDATA["@, i) {
        past(s, i + 9, "]]>"@)
    } else if matches_at(s, "<?"@, i) {
        past(s, i + 2, "?>"@)
    } else if matches_at(s, "<!"@, i) {
        match declaration_end(s, i + 2, None) {
            Some(j) => Mark::Pass(j + 1),
            None => Mark::Stop,
        }
    } else if matches_at(s, "</"@, i) {
        Mark::Close(i + 2)
    } else {
        match tag_end(s, i + 1, None) {
            Some(j) => if s[j - 1] == '/' {
                Mark::Empty(j + 1)
            } else {
                Mark::Open(j + 1)
            },
            None => Mark::Stop,
        }
    }
}

/// From position `i` on, within `depth` open elements, no more than `limit`
/// elements are open at a time, an empty one among them.
pub open spec fn nests_within(s: Seq<char>, i: int, depth: int, limit: int) -> bool
    decreases s.len() - i,
{
    if i < 0 || i >= s.len() {
        true
    } else {
        match mark_at(s, i) {
            Mark::Pass(j) => i < j <= s.len() && nests_within(s, j, depth, limit),
            Mark::Empty(j) => i < j <= s.len() && depth < limit && nests_within(s, j, depth, limit),
            Mark::Open(j) => i < j <= s.len() && depth < limit && nests_within(
                s,
                j,
                depth + 1,
                limit,
            ),
            Mark::Close(j) => i < j <= s.len() && nests_within(
                s,
                j,
                if depth > 0 {
                    depth - 1
                } else {
                    0
                },
                limit,
            ),
            Mark::Stop => false,
        }
    }
}

/// The elements of a body nest no deeper than is parsed.
pub open spec fn shallow(body: Seq<char>) -> bool {
    nests_within(body, 0, 0, MAX_DEPTH as int)
}

/// Where a start tag ends.
fn find_tag_end(s: &Vec<char>, from: usize) -> (r: Option<usize>)
    ensures
        match r {
            Some(j) => tag_end(s@, from as int, None) == Some(j as int) && from <= j < s@.len(),
            None => tag_end(s@, from as int, None) is None,
        },
{
    let mut i: usize = from;
    let mut quote: Option<char> = None;
    while i < s.len()
        invariant
            from <= i,
            tag_end(s@, from as int, None) == tag_end(s@, i as int, quote),
        decreases s@.len() - i,
    {
        let c: char = s[i];
        match quote {
            Some(q) => if c == q {
                quote = None;
            } else if c == '<' {
                if s.len() - i < 2 || s[i + 1] != '/' {
                    return None;
                }
                i = i + 1;
            },
            None => if c == '>' {
                return Some(i);
            } else if c == '<' {
                return None;
            } else if c == '"' || c == '\'' {
                quote = Some(c);
            },
        }
        i = i + 1;
    }
    None
}

/// Where a declaration ends.
fn find_declaration_end(s: &Vec<char>, from: usize) -> (r: Option<usize>)
    ensures
        match r {
            Some(j) => declaration_end(s@, from as int, None) == Some(j as int) && from <= j
                < s@.len(),
            None => declaration_end(s@, from as int, None) is None,
        },
{
    let mut i: usize = from;
    let mut quote: Option<char> = None;
    while i < s.len()
        invariant
            from <= i,
            declaration_end(s@, from as int, None) == declaration_end(s@, i as int, quote),
        decreases s@.len() - i,
    {
        let c: char = s[i];
        if c == '<' {
            return None;
        }
        match quote {
            Some(q) => if c == q {
                quote = None;
            } else if c == '>' {
                return None;
            },
            None => if c == '>' {
                return Some(i);
            } else if c == '[' {
                return None;
            } else if c == '"' || c == '\'' {
                quote = Some(c);
            },
        }
        i = i + 1;
    }
    None
}

/// Past the first `close` at or after `from`.
fn find_past(s: &Vec<char>, from: usize, close: &str) -> (r: Option<usize>)
    ensures
        match r {
            Some(j) => past(s@, from as int, close@) == Mark::Pass(j as int) && from <= j
                <= s@.len(),
            None => past(s@, from as int, close@) == Mark::Stop,
        },
{
    let p = chars_of(close);
    assert(s@.len() <= usize::MAX) by {
        let n = s.len();
    }
    match find_at(s, &p, from) {
        Some(j) => Some(j + p.len()),
        None => None,
    }
}

/// Whether the elements of a body nest no deeper than is parsed.
pub fn is_shallow(body: &str) -> (r: bool)
    ensures
        r == shallow(body@),
{
    let s = chars_of(body);
    let comment = chars_of("<!--");
    let data = chars_of("<![CDATA[");
    let instruction = chars_of("<?");
    let declaration = chars_of("<!");
    let close = chars_of("</");
    proof {
        reveal_strlit("<!--");
        reveal_strlit("<![CDATA[");
        reveal_strlit("<?");
        reveal_strlit("<!");
        reveal_strlit("</");
    }
    let mut depth: usize = 0;
    let mut i: usize = 0;
    while i < s.len()
        invariant
            s@ == body@,
            comment@ == "<!--"@,
            comment@.len() == 4,
            data@ == "<![CDATA["@,
            data@.len() == 9,
            instruction@ == "<?"@,
            instruction@.len() == 2,
            declaration@ == "<!"@,
            declaration@.len() == 2,
            close@ == "</"@,
            close@.len() == 2,
            depth <= MAX_DEPTH,
            i <= s@.len(),
            shallow(body@) == nests_within(s@, i as int, depth as int, MAX_DEPTH as int),
        decreases s@.len() - i,
    {
        let mut tag: bool = false;
        let mut opens: bool = false;
        let next: Option<usize>;
        if s[i] != '<' {
            next = Some(i + 1);
        } else if stands_at(&s, &comment, i) {
            next = find_past(&s, i + 4, "-->");
        } else if stands_at(&s, &data, i) {
            next = find_past(&s, i + 9, "]]>");
        } else if stands_at(&s, &instruction, i) {
            next = find_past(&s, i + 2, "?>");
        } else if stands_at(&s, &declaration, i) {
            next = match find_declaration_end(&s, i + 2) {
                Some(j) => Some(j + 1),
                None => None,
            };
        } else if stands_at(&s, &close, i) {
            if depth > 0 {
                depth = depth - 1;
            }
            i = i + 2;
            continue;
        } else {
            next = match find_tag_end(&s, i + 1) {
                Some(j) => {
                    tag = true;
                    opens = s[j - 1] != '/';
                    Some(j + 1)
                },
                None => None,
            };
        }
        match next {
            Some(j) => {
                if tag && depth >= MAX_DEPTH {
                    return false;
                }
                if opens {
                    depth = depth + 1;
                }
                i = j;
            },
            None => {
                return false;
            },
        }
    }
    true
}

/// `xmltree::Element::parse` on the bytes of a text. It descends once per
/// level of nesting, so only bodies that nest a bounded number of levels are
/// admitted.
#[verifier::external_body]
fn parse_element(body: &str) -> (r: Option<xmltree::Element>)
    requires
        encode_utf8(body@).len() <= MAX_BODY,
        shallow(body@),
    ensures
        match r {
            Some(el) => document_tree(body@) == Some(tree_of(el)),
            None => document_tree(body@) is None,
        },
{
    xmltree::Element::parse(body.as_bytes()).ok()
}

/// `xmltree::Element::new` gives an element of this name that holds nothing.
#[verifier::external_body]
fn new_element(name: &str) -> (r: xmltree::Element)
    ensures
        tree_of(r) == empty_tree(name@),
{
    xmltree::Element::new(name)
}

/// The field `name` of an element.
#[verifier::external_body]
fn element_name(el: &xmltree::Element) -> (r: &String)
    ensures
        r@ == tree_of(*el).name,
{
    &el.name
}

/// `xmltree::Element::get_text`: what the text and character data directly in
/// an element say, put together.
#[verifier::external_body]
fn element_text(el: &xmltree::Element) -> (r: Option<String>)
    ensures
        opt_view(r) == tree_of(*el).text,
{
    match el.get_text() {
        Some(text) => Some(text.into_owned()),
        None => None,
    }
}

/// The map `attributes` of an element, looked up by name.
#[verifier::external_body]
fn element_attribute(el: &xmltree::Element, name: &str) -> (r: Option<String>)
    ensures
        match r {
            Some(value) => tree_of(*el).attributes.dom().contains(name@) && value@ == tree_of(
                *el,
            ).attributes[name@],
            None => !tree_of(*el).attributes.dom().contains(name@),
        },
{
    el.attributes.get(name).cloned()
}

/// The length of the field `children` of an element.
#[verifier::external_body]
fn node_count(el: &xmltree::Element) -> (r: usize)
    ensures
        r == tree_of(*el).nodes.len(),
{
    el.children.len()
}

/// `xmltree::XMLNode::as_element` on one of the children of an element.
#[verifier::external_body]
fn node_element(el: &xmltree::Element, i: usize) -> (r: Option<&xmltree::Element>)
    requires
        i < tree_of(*el).nodes.len(),
    ensures
        match r {
            Some(child) => tree_of(*el).nodes[i as int] == Some(tree_of(*child)),
            None => tree_of(*el).nodes[i as int] is None,
        },
{
    el.children[i].as_element()
}

/// An element that holds nothing.
pub open spec fn empty_tree(name: Seq<char>) -> Tree {
    Tree { name, attributes: Map::empty(), text: None, nodes: Seq::empty() }
}

/// The root of a body that is neither too large nor too deep.
pub open spec fn parsed(body: Seq<char>) -> Option<Tree> {
    if encode_utf8(body).len() > MAX_BODY || !shallow(body) {
        None
    } else {
        document_tree(body)
    }
}

/// The root element of a body; nothing where it is too large, too deep or not
/// XML.
pub fn parse(body: &str) -> (r: Option<xmltree::Element>)
    ensures
        match r {
            Some(el) => parsed(body@) == Some(tree_of(el)),
            None => parsed(body@) is None,
        },
{
    if body.as_bytes().len() > MAX_BODY || !is_shallow(body) {
        return None;
    }
    parse_element(body)
}

/// The root element of a body, or an empty element of this name.
pub fn parse_or(body: &str, name: &str) -> (r: xmltree::Element)
    ensures
        tree_of(r) == match parsed(body@) {
            Some(t) => t,
            None => empty_tree(name@),
        },
{
    match parse(body) {
        Some(el) => el,
        None => new_element(name),
    }
}

/// The first element with this local name, the tree itself included and each
/// element before its children.
pub open spec fn first_named(tree: Tree, name: Seq<char>) -> Option<Tree>
    decreases tree,
{
    if tree.name == name {
        Some(tree)
    } else {
        first_among(tree.nodes, name)
    }
}

/// The first element with this local name in these nodes.
pub open spec fn first_among(nodes: Seq<Option<Tree>>, name: Seq<char>) -> Option<Tree>
    decreases nodes,
{
    if nodes.len() == 0 {
        None
    } else {
        let here = match nodes[0] {
            Some(child) => first_named(child, name),
            None => None,
        };
        match here {
            Some(t) => Some(t),
            None => first_among(nodes.subrange(1, nodes.len() as int), name),
        }
    }
}

/// The first element with this local name, depth first, `el` included.
pub fn find<'a>(el: &'a xmltree::Element, name: &str) -> (r: Option<&'a xmltree::Element>)
    ensures
        match r {
            Some(found) => first_named(tree_of(*el), name@) == Some(tree_of(*found)),
            None => first_named(tree_of(*el), name@) is None,
        },
    decreases tree_of(*el),
{
    if same(element_name(el).as_str(), name) {
        return Some(el);
    }
    let ghost nodes = tree_of(*el).nodes;
    let n: usize = node_count(el);
    let mut i: usize = 0;
    assert(nodes.subrange(0, nodes.len() as int) =~= nodes);
    while i < n
        invariant
            i <= n,
            nodes == tree_of(*el).nodes,
            n == nodes.len(),
            tree_of(*el).name != name@,
            first_named(tree_of(*el), name@) == first_among(
                nodes.subrange(i as int, nodes.len() as int),
                name@,
            ),
        decreases n - i,
    {
        let ghost rest = nodes.subrange(i as int, nodes.len() as int);
        assert(rest[0] == nodes[i as int]);
        assert(rest.subrange(1, rest.len() as int) =~= nodes.subrange(i + 1, nodes.len() as int));
        if let Some(child) = node_element(el, i) {
            assert(decreases_to!(tree_of(*el) => nodes[i as int]));
            if let Some(found) = find(child, name) {
                return Some(found);
            }
        }
        i = i + 1;
    }
    None
}

/// The text of an element without surrounding white space, empty where it has
/// none.
pub open spec fn tree_text(tree: Tree) -> Seq<char> {
    match tree.text {
        Some(t) => trim(t),
        None => Seq::empty(),
    }
}

/// The text of an element without surrounding white space.
pub fn text(el: &xmltree::Element) -> (r: String)
    ensures
        r@ == tree_text(tree_of(*el)),
{
    match element_text(el) {
        Some(t) => trimmed(t.as_str()),
        None => String::new(),
    }
}

/// The text of the first element with this local name in a body.
pub open spec fn body_text(body: Seq<char>, tag: Seq<char>) -> Option<Seq<char>> {
    match parsed(body) {
        Some(root) => match first_named(root, tag) {
            Some(el) => Some(tree_text(el)),
            None => None,
        },
        None => None,
    }
}

/// The text of the first element with this local name in a body.
pub fn xml_element_text(body: &str, tag: &str) -> (r: Option<String>)
    ensures
        opt_view(r) == body_text(body@, tag@),
{
    match parse(body) {
        Some(root) => match find(&root, tag) {
            Some(el) => Some(text(el)),
            None => None,
        },
        None => None,
    }
}

/// An attribute of the first element with this local name in a body.
pub open spec fn body_attribute(body: Seq<char>, tag: Seq<char>, attr: Seq<char>) -> Option<
    Seq<char>,
> {
    match parsed(body) {
        Some(root) => match first_named(root, tag) {
            Some(el) => if el.attributes.dom().contains(attr) {
                Some(el.attributes[attr])
            } else {
                None
            },
            None => None,
        },
        None => None,
    }
}

/// An attribute of the first element with this local name in a body.
pub fn xml_attr(body: &str, tag: &str, attr: &str) -> (r: Option<String>)
    ensures
        opt_view(r) == body_attribute(body@, tag@, attr@),
{
    match parse(body) {
        Some(root) => match find(&root, tag) {
            Some(el) => element_attribute(el, attr),
            None => None,
        },
        None => None,
    }
}

/// The values that the child elements of a tree give an attribute, in order.
pub open spec fn child_values(nodes: Seq<Option<Tree>>, attr: Seq<char>) -> Seq<Seq<char>>
    decreases nodes.len(),
{
    if nodes.len() == 0 {
        Seq::empty()
    } else {
        let lead = child_values(nodes.drop_last(), attr);
        match nodes.last() {
            Some(child) => if child.attributes.dom().contains(attr) {
                lead.push(child.attributes[attr])
            } else {
                lead
            },
            None => lead,
        }
    }
}

/// The values that the child elements of an element give an attribute.
pub fn child_attributes(el: &xmltree::Element, attr: &str) -> (r: Vec<String>)
    ensures
        views(r@) == child_values(tree_of(*el).nodes, attr@),
{
    let ghost nodes = tree_of(*el).nodes;
    let n: usize = node_count(el);
    let mut out: Vec<String> = Vec::new();
    let mut i: usize = 0;
    assert(views(out@) =~= child_values(nodes.take(0), attr@));
    while i < n
        invariant
            i <= n,
            nodes == tree_of(*el).nodes,
            n == nodes.len(),
            views(out@) == child_values(nodes.take(i as int), attr@),
        decreases n - i,
    {
        assert(nodes.take(i + 1).drop_last() =~= nodes.take(i as int));
        if let Some(child) = node_element(el, i) {
            if let Some(value) = element_attribute(child, attr) {
                let ghost lead = out@;
                out.push(value);
                assert(views(out@) =~= views(lead).push(value@));
            }
        }
        i = i + 1;
    }
    assert(nodes.take(nodes.len() as int) =~= nodes);
    out
}

} // verus!
