//! The report's schema over the element tree: which children are required, which may be
//! missing, and how their text is read.
use vstd::prelude::*;

use crate::document::{element_model, node_model, Element, ElementModel, Node, NodeModel};
use crate::text::{decimal_at_most, is_word, parse_decimal};
use vstd::string::StringExecFns;

verus! {

/// The first element among `c[i..]` named `name`.
pub open spec fn first_named_from(c: Seq<NodeModel>, name: Seq<char>, i: int) -> Option<ElementModel>
    decreases c.len() - i,
{
    if 0 <= i < c.len() {
        match c[i] {
            NodeModel::Child(e) => if e.name == name {
                Some(e)
            } else {
                first_named_from(c, name, i + 1)
            },
            NodeModel::Text(_) => first_named_from(c, name, i + 1),
        }
    } else {
        None
    }
}

/// The first child of `e` named `name`.
pub open spec fn child(e: ElementModel, name: Seq<char>) -> Option<ElementModel> {
    first_named_from(e.content, name, 0)
}

/// The elements among the first `n` nodes of `c` that are named `name`, in order.
pub open spec fn named_among(c: Seq<NodeModel>, name: Seq<char>, n: int) -> Seq<ElementModel>
    decreases n,
{
    if 0 < n <= c.len() {
        let before = named_among(c, name, n - 1);
        match c[n - 1] {
            NodeModel::Child(e) => if e.name == name {
                before.push(e)
            } else {
                before
            },
            NodeModel::Text(_) => before,
        }
    } else {
        Seq::empty()
    }
}

/// All children of `e` named `name`, in document order.
pub open spec fn children(e: ElementModel, name: Seq<char>) -> Seq<ElementModel> {
    named_among(e.content, name, e.content.len() as int)
}

/// The text of an element that holds only text (none at all reads as the empty text).
pub open spec fn leaf_text(e: ElementModel) -> Option<Seq<char>> {
    if e.content.len() == 0 {
        Some(Seq::empty())
    } else if e.content.len() == 1 && e.content[0] is Text {
        Some(e.content[0]->Text_0)
    } else {
        None
    }
}

/// The text of the required child `name`; `None` when it is missing or holds elements.
pub open spec fn required_text(e: ElementModel, name: Seq<char>) -> Option<Seq<char>> {
    match child(e, name) {
        Some(c) => leaf_text(c),
        None => None,
    }
}

/// The text of the optional child `name`: `Some(None)` when it is missing, `None` when it
/// holds elements.
pub open spec fn optional_text(e: ElementModel, name: Seq<char>) -> Option<Option<Seq<char>>> {
    match child(e, name) {
        Some(c) => match leaf_text(c) {
            Some(t) => Some(Some(t)),
            None => None,
        },
        None => Some(None),
    }
}

/// The required child `name` read as an unsigned number no greater than `max`.
pub open spec fn required_number(e: ElementModel, name: Seq<char>, max: nat) -> Option<nat> {
    match required_text(e, name) {
        Some(t) => decimal_at_most(t, max),
        None => None,
    }
}

/// The tag held by the required child `name`, read by `read`.
pub open spec fn required_tag<T>(
    e: ElementModel,
    name: Seq<char>,
    read: spec_fn(Seq<char>) -> Option<T>,
) -> Option<T> {
    match required_text(e, name) {
        Some(t) => read(t),
        None => None,
    }
}

/// The tag held by the optional child `name`, read by `read`: `Some(None)` when it is
/// missing, `None` when it is present and not a tag that `read` knows.
pub open spec fn optional_tag<T>(
    e: ElementModel,
    name: Seq<char>,
    read: spec_fn(Seq<char>) -> Option<T>,
) -> Option<Option<T>> {
    match optional_text(e, name) {
        Some(Some(t)) => match read(t) {
            Some(v) => Some(Some(v)),
            None => None,
        },
        Some(None) => Some(None),
        None => None,
    }
}

/// Every element of `s` read by `read`, if each of them can be.
pub open spec fn read_all<T>(s: Seq<ElementModel>, read: spec_fn(ElementModel) -> Option<T>) -> Option<Seq<T>>
    decreases s.len(),
{
    if s.len() == 0 {
        Some(Seq::empty())
    } else {
        match (read_all(s.drop_last(), read), read(s.last())) {
            (Some(before), Some(x)) => Some(before.push(x)),
            _ => None,
        }
    }
}

/// The required child `name`, read by `read`.
pub open spec fn required_child<T>(
    e: ElementModel,
    name: Seq<char>,
    read: spec_fn(ElementModel) -> Option<T>,
) -> Option<T> {
    match child(e, name) {
        Some(c) => read(c),
        None => None,
    }
}

/// A list of children that may be missing altogether: `Some(None)` when there is none,
/// `Some(Some(all of them))` when each can be read, else `None`.
pub open spec fn optional_list<T>(
    e: ElementModel,
    name: Seq<char>,
    read: spec_fn(ElementModel) -> Option<T>,
) -> Option<Option<Seq<T>>> {
    let found = children(e, name);
    if found.len() == 0 {
        Some(None)
    } else {
        match read_all(found, read) {
            Some(v) => Some(Some(v)),
            None => None,
        }
    }
}

pub proof fn lemma_read_all_prefix<T>(
    s: Seq<ElementModel>,
    read: spec_fn(ElementModel) -> Option<T>,
    i: int,
)
    requires
        0 <= i <= s.len(),
        read_all(s.subrange(0, i), read) is None,
    ensures
        read_all(s, read) is None,
    decreases s.len() - i,
{
    if i < s.len() {
        assert(s.subrange(0, i + 1).drop_last() == s.subrange(0, i));
        lemma_read_all_prefix(s, read, i + 1);
    } else {
        assert(s.subrange(0, i) == s);
    }
}

/// One element that cannot be read makes the whole list unreadable.
pub proof fn lemma_read_all_refuses<T>(
    s: Seq<ElementModel>,
    read: spec_fn(ElementModel) -> Option<T>,
    i: int,
)
    requires
        0 <= i < s.len(),
        read(s[i]) is None,
    ensures
        read_all(s, read) is None,
{
    assert(s.subrange(0, i + 1).drop_last() == s.subrange(0, i));
    assert(s.subrange(0, i + 1).last() == s[i]);
    lemma_read_all_prefix(s, read, i + 1);
}

pub proof fn lemma_read_all_len<T>(s: Seq<ElementModel>, read: spec_fn(ElementModel) -> Option<T>)
    ensures
        read_all(s, read) is Some ==> read_all(s, read)->0.len() == s.len(),
    decreases s.len(),
{
    if s.len() > 0 {
        lemma_read_all_len(s.drop_last(), read);
    }
}

/// The first child of `e` named `name`.
pub fn find_child<'a>(e: &'a Element, name: &str) -> (r: Option<&'a Element>)
    ensures
        child(element_model(*e), name@) == (match r {
            Some(c) => Some(element_model(*c)),
            None => None::<ElementModel>,
        }),
{
    let ghost c = element_model(*e).content;
    let mut i: usize = 0;
    while i < e.content.len()
        invariant
            c == element_model(*e).content,
            i <= e.content.len(),
            first_named_from(c, name@, 0) == first_named_from(c, name@, i as int),
        decreases e.content.len() - i,
    {
        assert(c[i as int] == node_model(e.content@[i as int]));
        match &e.content[i] {
            Node::Child(x) => {
                if is_word(x.name.as_str(), name) {
                    return Some(x);
                }
            },
            Node::Text(_) => {},
        }
        i = i + 1;
    }
    None
}

/// All children of `e` named `name`, in document order.
pub fn find_children<'a>(e: &'a Element, name: &str) -> (r: Vec<&'a Element>)
    ensures
        children(element_model(*e), name@) == r@.map_values(|x: &Element| element_model(*x)),
{
    let ghost c = element_model(*e).content;
    let mut out: Vec<&'a Element> = Vec::new();
    let mut i: usize = 0;
    while i < e.content.len()
        invariant
            c == element_model(*e).content,
            i <= e.content.len(),
            named_among(c, name@, i as int) == out@.map_values(|x: &Element| element_model(*x)),
        decreases e.content.len() - i,
    {
        assert(c[i as int] == node_model(e.content@[i as int]));
        let ghost before = out@;
        match &e.content[i] {
            Node::Child(x) => {
                if is_word(x.name.as_str(), name) {
                    out.push(x);
                    assert(out@.map_values(|x: &Element| element_model(*x)) =~= before.map_values(
                        |x: &Element| element_model(*x),
                    ).push(element_model(*x)));
                }
            },
            Node::Text(_) => {},
        }
        i = i + 1;
    }
    out
}

/// The text of an element that holds only text.
pub fn text_of(e: &Element) -> (r: Option<String>)
    ensures
        leaf_text(element_model(*e)) == (match r {
            Some(t) => Some(t@),
            None => None::<Seq<char>>,
        }),
{
    let ghost m = element_model(*e);
    if e.content.len() == 0 {
        assert(m.content.len() == 0);
        return Some(String::new());
    }
    if e.content.len() == 1 {
        assert(m.content[0] == node_model(e.content@[0]));
        match &e.content[0] {
            Node::Text(t) => return Some(t.clone()),
            Node::Child(_) => return None,
        }
    }
    None
}

/// The message for a required element that is missing.
pub fn missing_element(name: &str) -> (r: String)
    ensures
        r@ == "missing element `"@ + name@ + "`"@,
{
    String::from_str("missing element `").concat(name).concat("`")
}

/// The message for an element that should hold only text.
pub fn not_text(name: &str) -> (r: String)
    ensures
        r@ == "element `"@ + name@ + "` holds more than text"@,
{
    String::from_str("element `").concat(name).concat("` holds more than text")
}

/// The message for text that the element `name` cannot hold.
pub fn refused_value(name: &str, text: &str) -> (r: String)
    ensures
        r@ == "`"@ + text@ + "` is not a valid value of `"@ + name@ + "`"@,
{
    String::from_str("`").concat(text).concat("` is not a valid value of `").concat(name).concat("`")
}

/// The message for a document whose root element is not a report.
pub fn unexpected_root(name: &str) -> (r: String)
    ensures
        r@ == "the root element is `"@ + name@ + "`, not `feedback`"@,
{
    String::from_str("the root element is `").concat(name).concat("`, not `feedback`")
}

/// The text of the required child `name`.
pub fn required_text_of(e: &Element, name: &str) -> (r: Result<String, String>)
    ensures
        required_text(element_model(*e), name@) == (match r {
            Ok(t) => Some(t@),
            Err(_) => None::<Seq<char>>,
        }),
{
    match find_child(e, name) {
        Some(c) => match text_of(c) {
            Some(t) => Ok(t),
            None => Err(not_text(name)),
        },
        None => Err(missing_element(name)),
    }
}

/// The text of the optional child `name`.
pub fn optional_text_of(e: &Element, name: &str) -> (r: Result<Option<String>, String>)
    ensures
        optional_text(element_model(*e), name@) == (match r {
            Ok(Some(t)) => Some(Some(t@)),
            Ok(None) => Some(None::<Seq<char>>),
            Err(_) => None::<Option<Seq<char>>>,
        }),
{
    match find_child(e, name) {
        Some(c) => match text_of(c) {
            Some(t) => Ok(Some(t)),
            None => Err(not_text(name)),
        },
        None => Ok(None),
    }
}

/// The required child `name` read as an unsigned number no greater than `max`.
pub fn required_number_of(e: &Element, name: &str, max: u64) -> (r: Result<u64, String>)
    ensures
        required_number(element_model(*e), name@, max as nat) == (match r {
            Ok(n) => Some(n as nat),
            Err(_) => None::<nat>,
        }),
{
    match required_text_of(e, name) {
        Ok(t) => match parse_decimal(t.as_str(), max) {
            Some(n) => Ok(n),
            None => Err(refused_value(name, t.as_str())),
        },
        Err(m) => Err(m),
    }
}

} // verus!
