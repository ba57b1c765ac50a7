//! An XML document as a tree of elements and text, built from the tokens of xml-rs.
use vstd::prelude::*;

use xml::reader::{EventReader, ParserConfig, XmlEvent};

verus! {

broadcast use vstd::std_specs::vec::axiom_vec_index_decreases;

/// One event of the XML reader: an opening tag, a closing tag, text, or anything else
/// (the document's start and end, processing instructions).
#[derive(Debug, Clone, PartialEq, Eq)]
pub enum XmlToken {
    Open(String),
    Close(String),
    Text(String),
    Other,
}

pub ghost enum TokenModel {
    Open(Seq<char>),
    Close(Seq<char>),
    Text(Seq<char>),
    Other,
}

impl View for XmlToken {
    type V = TokenModel;

    open spec fn view(&self) -> TokenModel {
        match self {
            XmlToken::Open(n) => TokenModel::Open(n@),
            XmlToken::Close(n) => TokenModel::Close(n@),
            XmlToken::Text(t) => TokenModel::Text(t@),
            XmlToken::Other => TokenModel::Other,
        }
    }
}

pub open spec fn token_models(t: Seq<XmlToken>) -> Seq<TokenModel> {
    t.map_values(|x: XmlToken| x@)
}

/// The tokens that xml-rs reads from a document, or its message when the document is not
/// well-formed XML.
pub uninterp spec fn xml_tokens_of(data: Seq<u8>) -> Result<Seq<TokenModel>, Seq<char>>;

/// Relies on xml-rs's `EventReader`, set up as serde-xml-rs sets it up (text trimmed, CDATA
/// and whitespace read as text, comments dropped): its events depend on the bytes alone.
#[verifier::external_body]
pub(crate) fn xml_tokens(data: &[u8]) -> (r: Result<Vec<XmlToken>, String>)
    ensures
        xml_tokens_of(data@) == (match r {
            Ok(t) => Ok::<Seq<TokenModel>, Seq<char>>(token_models(t@)),
            Err(m) => Err::<Seq<TokenModel>, Seq<char>>(m@),
        }),
{
    let config = ParserConfig::new().trim_whitespace(true).whitespace_to_characters(true)
        .cdata_to_characters(true).ignore_comments(true).coalesce_characters(true);
    let mut out = Vec::new();
    for event in EventReader::new_with_config(data, config) {
        match event {
            Ok(XmlEvent::StartElement { name, .. }) => out.push(XmlToken::Open(name.local_name)),
            Ok(XmlEvent::EndElement { name }) => out.push(XmlToken::Close(name.local_name)),
            Ok(XmlEvent::Characters(text)) => out.push(XmlToken::Text(text)),
            Ok(_) => out.push(XmlToken::Other),
            Err(e) => return Err(e.to_string()),
        }
    }
    Ok(out)
}

/// A piece of an element's content: text, or a nested element.
#[derive(Debug)]
pub enum Node {
    Text(String),
    Child(Element),
}

/// An element: its local name and its content in document order.
#[derive(Debug)]
pub struct Element {
    pub name: String,
    pub content: Vec<Node>,
}

pub ghost enum NodeModel {
    Text(Seq<char>),
    Child(ElementModel),
}

pub ghost struct ElementModel {
    pub name: Seq<char>,
    pub content: Seq<NodeModel>,
}

pub open spec fn node_model(n: Node) -> NodeModel
    decreases n,
{
    match n {
        Node::Text(t) => NodeModel::Text(t@),
        Node::Child(c) => NodeModel::Child(element_model(c)),
    }
}

pub open spec fn element_model(e: Element) -> ElementModel
    decreases e,
{
    ElementModel {
        name: e.name@,
        content: Seq::new(
            e.content@.len(),
            |i: int|
                if 0 <= i < e.content@.len() {
                    node_model(e.content[i])
                } else {
                    NodeModel::Text(Seq::empty())
                },
        ),
    }
}

/// How deeply elements may nest in a document that is read; deeper documents are refused,
/// so that reading one takes a bounded amount of stack.
pub const MAX_DEPTH: usize = 64;

/// The element that opens at token `p`, and the position just after its closing tag:
/// text and nested elements in between, closed by a tag of the same name, with at most
/// `depth` levels of elements.
pub open spec fn element_at(t: Seq<TokenModel>, p: int, depth: int) -> Option<(ElementModel, int)>
    decreases t.len() - p, 0int,
{
    if 0 <= p < t.len() && t[p] is Open && depth > 0 {
        content_from(t, p + 1, t[p]->Open_0, Seq::empty(), depth)
    } else {
        None
    }
}

/// The rest of an element named `name` whose content so far is `acc`, read from token `i`;
/// its children may hold `depth - 1` levels of elements.
pub open spec fn content_from(
    t: Seq<TokenModel>,
    i: int,
    name: Seq<char>,
    acc: Seq<NodeModel>,
    depth: int,
) -> Option<(ElementModel, int)>
    decreases t.len() - i, 1int,
{
    if 0 <= i < t.len() {
        match t[i] {
            TokenModel::Close(n) => if n == name {
                Some((ElementModel { name, content: acc }, i + 1))
            } else {
                None
            },
            TokenModel::Text(x) => content_from(
                t,
                i + 1,
                name,
                acc.push(NodeModel::Text(x)),
                depth,
            ),
            TokenModel::Open(_) => match element_at(t, i, depth - 1) {
                Some((c, j)) => if i < j <= t.len() {
                    content_from(t, j, name, acc.push(NodeModel::Child(c)), depth)
                } else {
                    None
                },
                None => None,
            },
            TokenModel::Other => None,
        }
    } else {
        None
    }
}

/// The position of the first token at or after `i` that is not `Other`.
pub open spec fn skip_other(t: Seq<TokenModel>, i: int) -> int
    decreases t.len() - i,
{
    if 0 <= i < t.len() && t[i] is Other {
        skip_other(t, i + 1)
    } else {
        i
    }
}

/// The root element of a token sequence: one element, nested at most `MAX_DEPTH` levels
/// deep, with nothing but `Other` tokens before and after it.
pub open spec fn document_root(t: Seq<TokenModel>) -> Option<ElementModel> {
    match element_at(t, skip_other(t, 0), MAX_DEPTH as int) {
        Some((e, end)) => if forall|k: int| end <= k < t.len() ==> #[trigger] t[k] is Other {
            Some(e)
        } else {
            None
        },
        None => None,
    }
}

fn same_name(a: &String, b: &String) -> (r: bool)
    ensures
        r == (a@ == b@),
{
    *a == *b
}

/// Reads the element that opens at token `pos`, with at most `depth` levels of elements.
pub fn element_from(toks: &Vec<XmlToken>, pos: usize, depth: usize) -> (r: Option<(Element, usize)>)
    ensures
        element_at(token_models(toks@), pos as int, depth as int) == (match r {
            Some((e, end)) => Some((element_model(e), end as int)),
            None => None::<(ElementModel, int)>,
        }),
        match r {
            Some((_, end)) => pos < end <= toks.len(),
            None => true,
        },
    decreases toks.len() - pos,
{
    let ghost t = token_models(toks@);
    if pos >= toks.len() || depth == 0 {
        return None;
    }
    let name = match &toks[pos] {
        XmlToken::Open(n) => n.clone(),
        _ => return None,
    };
    let mut e = Element { name, content: Vec::new() };
    let mut i: usize = pos + 1;
    assert(element_model(e).content =~= Seq::<NodeModel>::empty());
    while i < toks.len()
        invariant
            t == token_models(toks@),
            pos < i <= toks.len(),
            t[pos as int] is Open,
            e.name@ == t[pos as int]->Open_0,
            depth > 0,
            element_at(t, pos as int, depth as int) == content_from(
                t,
                i as int,
                e.name@,
                element_model(e).content,
                depth as int,
            ),
        decreases toks.len() - i,
    {
        let ghost before = element_model(e).content;
        match &toks[i] {
            XmlToken::Close(n) => {
                if same_name(n, &e.name) {
                    assert(element_model(e) == ElementModel { name: e.name@, content: before });
                    return Some((e, i + 1));
                } else {
                    return None;
                }
            },
            XmlToken::Text(x) => {
                e.content.push(Node::Text(x.clone()));
                assert(element_model(e).content =~= before.push(NodeModel::Text(x@)));
                i = i + 1;
            },
            XmlToken::Open(_) => {
                match element_from(toks, i, depth - 1) {
                    Some((c, j)) => {
                        let ghost cm = element_model(c);
                        e.content.push(Node::Child(c));
                        assert(element_model(e).content =~= before.push(NodeModel::Child(cm)));
                        i = j;
                    },
                    None => return None,
                }
            },
            XmlToken::Other => return None,
        }
    }
    None
}

/// Builds the document's root element from its tokens.
pub fn document_from_tokens(toks: &Vec<XmlToken>) -> (r: Option<Element>)
    ensures
        document_root(token_models(toks@)) == (match r {
            Some(e) => Some(element_model(e)),
            None => None::<ElementModel>,
        }),
{
    let ghost t = token_models(toks@);
    let mut lo: usize = 0;
    while lo < toks.len() && matches!(toks[lo], XmlToken::Other)
        invariant
            t == token_models(toks@),
            lo <= toks.len(),
            skip_other(t, 0) == skip_other(t, lo as int),
        decreases toks.len() - lo,
    {
        lo = lo + 1;
    }
    if lo < toks.len() {
        assert(t[lo as int] == toks@[lo as int]@);
    }
    assert(skip_other(t, lo as int) == lo);
    match element_from(toks, lo, MAX_DEPTH) {
        Some((e, end)) => {
            let mut k: usize = end;
            while k < toks.len()
                invariant
                    t == token_models(toks@),
                    end <= k <= toks.len(),
                    skip_other(t, 0) == lo,
                    element_at(t, lo as int, MAX_DEPTH as int) == Some((element_model(e), end as int)),
                    forall|m: int| end <= m < k ==> #[trigger] t[m] is Other,
                decreases toks.len() - k,
            {
                if !matches!(toks[k], XmlToken::Other) {
                    assert(t[k as int] == toks@[k as int]@);
                    assert(!(t[k as int] is Other));
                    return None;
                }
                k = k + 1;
            }
            Some(e)
        },
        None => None,
    }
}

} // verus!
