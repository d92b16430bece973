//! The XML tree that model descriptions are read from, and the ways the readers
//! query it: child elements by tag name, attributes by name, and typed attribute
//! values with the messages that a refused value gives.
use std::ops::Range;
use vstd::prelude::*;
use vstd::string::*;

use crate::text::{
    chars_of, decimal, is_float_literal, is_float_literal_chars, owned, parse_bool,
    parse_bool_chars, parse_integer, parse_integer_in, push_str, u64_to_decimal,
};

verus! {

/// An attribute of an element: its local name and its value.
#[derive(Debug)]
pub struct XmlAttribute {
    pub name: String,
    pub value: String,
}

/// A child of an element: an element, or any other node (text, comment or
/// processing instruction) with its text.
#[derive(Debug)]
pub enum XmlNode {
    Element(XmlElement),
    Other(String),
}

/// An element: its local tag name, its attributes in document order, its children,
/// the byte range it spans in the document, and the row and column it starts at.
#[derive(Debug)]
pub struct XmlElement {
    pub name: String,
    pub attributes: Vec<XmlAttribute>,
    pub children: Vec<XmlNode>,
    pub range: Range<usize>,
    pub row: u32,
    pub col: u32,
}

/// The root element that `roxmltree` reads from `text` (with DTDs allowed), or the
/// text of the error it reports.
pub uninterp spec fn xml_document(text: Seq<char>) -> Result<XmlElement, Seq<char>>;

/// Reads `text` with `roxmltree::Document::parse_with_options` (DTDs allowed) and
/// gives the tree below the root element. The contract claims that the result is
/// a function of the text alone, named `xml_document`; what the tree holds is not
/// stated.
#[verifier::external_body]
pub fn parse_xml(text: &str) -> (res: Result<XmlElement, String>)
    ensures
        match res {
            Ok(root) => xml_document(text@) == Ok::<XmlElement, Seq<char>>(root),
            Err(e) => xml_document(text@) == Err::<XmlElement, Seq<char>>(e@),
        },
{
    let opt = roxmltree::ParsingOptions { allow_dtd: true, ..roxmltree::ParsingOptions::default() };
    match roxmltree::Document::parse_with_options(text, opt) {
        Ok(doc) => Ok(element_of(doc.root_element())),
        Err(e) => Err(e.to_string()),
    }
}

/// Copies a `roxmltree` element node into an `XmlElement`, node for node.
#[verifier::external_body]
fn element_of(node: roxmltree::Node) -> XmlElement {
    let pos = node.document().text_pos_at(node.range().start);
    XmlElement {
        name: node.tag_name().name().to_string(),
        attributes: node.attributes().map(|a| XmlAttribute { name: a.name().to_string(), value: a.value().to_string() }).collect(),
        children: node.children().map(|c| if c.is_element() { XmlNode::Element(element_of(c)) } else { XmlNode::Other(c.text().unwrap_or("").to_string()) }).collect(),
        range: node.range(),
        row: pos.row,
        col: pos.col,
    }
}

/// Declares `roxmltree::Node`, opaque, so that it can stand in the signature of
/// `element_of`; nothing is stated of its values.
#[verifier::external_type_specification]
#[verifier::external_body]
pub struct ExXmlNodeRef<'a, 'input: 'a>(roxmltree::Node<'a, 'input>);

// ---------------------------------------------------------------------------
// Specifications of the queries
// ---------------------------------------------------------------------------
/// The value of the first attribute in `attrs[i..]` named `name`.
pub open spec fn attribute_from(attrs: Seq<XmlAttribute>, name: Seq<char>, i: nat) -> Option<String>
    decreases attrs.len() - i,
{
    if i >= attrs.len() {
        None
    } else if attrs[i as int].name@ == name {
        Some(attrs[i as int].value)
    } else {
        attribute_from(attrs, name, i + 1)
    }
}

/// The first child element in `nodes[i..]` whose tag is `name`.
pub open spec fn child_from(nodes: Seq<XmlNode>, name: Seq<char>, i: nat) -> Option<XmlElement>
    decreases nodes.len() - i,
{
    if i >= nodes.len() {
        None
    } else {
        match nodes[i as int] {
            XmlNode::Element(c) => if c.name@ == name {
                Some(c)
            } else {
                child_from(nodes, name, i + 1)
            },
            XmlNode::Other(_) => child_from(nodes, name, i + 1),
        }
    }
}

/// The child elements among `nodes[..n]` whose tag is `name`, in order.
pub open spec fn children_named(nodes: Seq<XmlNode>, name: Seq<char>, n: nat) -> Seq<XmlElement>
    decreases n,
{
    if n == 0 || n > nodes.len() {
        seq![]
    } else {
        let before = children_named(nodes, name, (n - 1) as nat);
        match nodes[n - 1] {
            XmlNode::Element(c) => if c.name@ == name {
                before.push(c)
            } else {
                before
            },
            XmlNode::Other(_) => before,
        }
    }
}

/// The child elements among `nodes[..n]`, in order.
pub open spec fn element_nodes(nodes: Seq<XmlNode>, n: nat) -> Seq<XmlElement>
    decreases n,
{
    if n == 0 || n > nodes.len() {
        seq![]
    } else {
        let before = element_nodes(nodes, (n - 1) as nat);
        match nodes[n - 1] {
            XmlNode::Element(c) => before.push(c),
            XmlNode::Other(_) => before,
        }
    }
}

/// The first element in document order, among `e` and the elements below it,
/// whose tag is `name`.
pub open spec fn first_descendant(e: XmlElement, name: Seq<char>) -> Option<XmlElement>
    decreases e,
{
    if e.name@ == name {
        Some(e)
    } else {
        first_descendant_in(e.children@, name, 0)
    }
}

/// The first element in document order, among `nodes[i..]` and the elements below
/// them, whose tag is `name`.
pub open spec fn first_descendant_in(nodes: Seq<XmlNode>, name: Seq<char>, i: nat) -> Option<
    XmlElement,
>
    decreases nodes, nodes.len() - i,
{
    if i >= nodes.len() {
        None
    } else {
        match nodes[i as int] {
            XmlNode::Element(c) => match first_descendant(c, name) {
                Some(d) => Some(d),
                None => first_descendant_in(nodes, name, i + 1),
            },
            XmlNode::Other(_) => first_descendant_in(nodes, name, i + 1),
        }
    }
}

/// `"Line {row}: Illegal value '{literal}' for attribute '{name}' in <{tag}>."`
pub open spec fn illegal_value_message(e: XmlElement, name: Seq<char>, literal: Seq<char>) -> Seq<
    char,
> {
    "Line "@ + decimal(e.row as nat) + ": Illegal value '"@ + literal + "' for attribute '"@ + name
        + "' in <"@ + e.name@ + ">."@
}

/// `"Missing required attribute '{name}'"`
pub open spec fn missing_attribute_message(name: Seq<char>) -> Seq<char> {
    "Missing required attribute '"@ + name + "'"@
}

/// `"Missing required attribute '{name}' in <{tag}>."`
pub open spec fn missing_attribute_in_message(e: XmlElement, name: Seq<char>) -> Seq<char> {
    "Missing required attribute '"@ + name + "' in <"@ + e.name@ + ">."@
}

/// `"Missing required element <{name}> in <{tag}>"`
pub open spec fn missing_element_message(e: XmlElement, name: Seq<char>) -> Seq<char> {
    "Missing required element <"@ + name + "> in <"@ + e.name@ + ">"@
}

/// How a boolean attribute is read: `1` and `0` stand for `true` and `false`.
pub open spec fn normalized_bool(s: Seq<char>) -> Seq<char> {
    if s == "1"@ {
        "true"@
    } else if s == "0"@ {
        "false"@
    } else {
        s
    }
}

impl XmlElement {
    /// The value of the first attribute named `name`.
    pub open spec fn spec_attribute(self, name: Seq<char>) -> Option<String> {
        attribute_from(self.attributes@, name, 0)
    }

    /// The first child element whose tag is `name`.
    pub open spec fn spec_child(self, name: Seq<char>) -> Option<XmlElement> {
        child_from(self.children@, name, 0)
    }

    /// The child elements whose tag is `name`, in order.
    pub open spec fn spec_children(self, name: Seq<char>) -> Seq<XmlElement> {
        children_named(self.children@, name, self.children@.len())
    }

    /// The child elements, in order.
    pub open spec fn spec_elements(self) -> Seq<XmlElement> {
        element_nodes(self.children@, self.children@.len())
    }

    /// An optional boolean attribute.
    pub open spec fn spec_bool_attribute(self, name: Seq<char>) -> Result<Option<bool>, Seq<char>> {
        match self.spec_attribute(name) {
            None => Ok(None),
            Some(v) => match parse_bool(normalized_bool(v@)) {
                Some(b) => Ok(Some(b)),
                None => Err(illegal_value_message(self, name, v@)),
            },
        }
    }

    /// An optional integer attribute of the type whose values are `[min, max]`.
    pub open spec fn spec_integer_attribute(self, name: Seq<char>, min: int, max: int) -> Result<
        Option<int>,
        Seq<char>,
    > {
        match self.spec_attribute(name) {
            None => Ok(None),
            Some(v) => match parse_integer(v@, min, max) {
                Ok(x) => Ok(Some(x)),
                Err(_) => Err(illegal_value_message(self, name, v@)),
            },
        }
    }

    /// An optional floating-point attribute, kept as its literal.
    pub open spec fn spec_float_attribute(self, name: Seq<char>) -> Result<Option<String>, Seq<char>> {
        match self.spec_attribute(name) {
            None => Ok(None),
            Some(v) => if is_float_literal(v@) {
                Ok(Some(v))
            } else {
                Err(illegal_value_message(self, name, v@))
            },
        }
    }

    /// Whether the tag of this element is `name`.
    pub fn has_tag_name(&self, name: &str) -> (res: bool)
        ensures
            res == (self.name@ == name@),
    {
        let key = owned(name);
        self.name == key
    }

    /// The value of the first attribute named `name`.
    pub fn attribute(&self, name: &str) -> (res: Option<String>)
        ensures
            res == self.spec_attribute(name@),
    {
        let key = owned(name);
        let mut i: usize = 0;
        while i < self.attributes.len()
            invariant
                i <= self.attributes@.len(),
                key@ == name@,
                attribute_from(self.attributes@, name@, i as nat) == self.spec_attribute(name@),
            decreases self.attributes.len() - i,
        {
            if self.attributes[i].name == key {
                return Some(self.attributes[i].value.clone());
            }
            i = i + 1;
        }
        None
    }

    /// The first child element whose tag is `name`.
    pub fn get_child(&self, name: &str) -> (res: Option<&XmlElement>)
        ensures
            match res {
                Some(c) => self.spec_child(name@) == Some(*c),
                None => self.spec_child(name@) is None,
            },
    {
        let key = owned(name);
        let mut i: usize = 0;
        while i < self.children.len()
            invariant
                i <= self.children@.len(),
                key@ == name@,
                child_from(self.children@, name@, i as nat) == self.spec_child(name@),
            decreases self.children.len() - i,
        {
            match &self.children[i] {
                XmlNode::Element(c) => {
                    if c.name == key {
                        return Some(c);
                    }
                },
                XmlNode::Other(_) => {},
            }
            i = i + 1;
        }
        None
    }

    /// The first child element whose tag is `name`, or the message that it is missing.
    pub fn get_required_child(&self, name: &str) -> (res: Result<&XmlElement, String>)
        ensures
            match res {
                Ok(c) => self.spec_child(name@) == Some(*c),
                Err(m) => self.spec_child(name@) is None && m@ == missing_element_message(
                    *self,
                    name@,
                ),
            },
    {
        match self.get_child(name) {
            Some(c) => Ok(c),
            None => {
                let mut m = owned("Missing required element <");
                push_str(&mut m, name);
                push_str(&mut m, "> in <");
                push_str(&mut m, self.name.as_str());
                push_str(&mut m, ">");
                Err(m)
            },
        }
    }

    /// The child elements whose tag is `name`, in order.
    pub fn get_children(&self, name: &str) -> (res: Vec<&XmlElement>)
        ensures
            res@.len() == self.spec_children(name@).len(),
            forall|k: int| 0 <= k < res@.len() ==> *(#[trigger] res@[k]) == self.spec_children(
                name@,
            )[k],
    {
        let key = owned(name);
        let mut found: Vec<&XmlElement> = Vec::new();
        let mut i: usize = 0;
        while i < self.children.len()
            invariant
                i <= self.children@.len(),
                key@ == name@,
                found@.len() == children_named(self.children@, name@, i as nat).len(),
                forall|k: int|
                    0 <= k < found@.len() ==> *(#[trigger] found@[k]) == children_named(
                        self.children@,
                        name@,
                        i as nat,
                    )[k],
            decreases self.children.len() - i,
        {
            match &self.children[i] {
                XmlNode::Element(c) => {
                    if c.name == key {
                        found.push(c);
                    }
                },
                XmlNode::Other(_) => {},
            }
            i = i + 1;
        }
        found
    }

    /// The child elements, in order.
    pub fn elements(&self) -> (res: Vec<&XmlElement>)
        ensures
            res@.len() == self.spec_elements().len(),
            forall|k: int| 0 <= k < res@.len() ==> *(#[trigger] res@[k]) == self.spec_elements()[k],
    {
        let mut found: Vec<&XmlElement> = Vec::new();
        let mut i: usize = 0;
        while i < self.children.len()
            invariant
                i <= self.children@.len(),
                found@.len() == element_nodes(self.children@, i as nat).len(),
                forall|k: int|
                    0 <= k < found@.len() ==> *(#[trigger] found@[k]) == element_nodes(
                        self.children@,
                        i as nat,
                    )[k],
            decreases self.children.len() - i,
        {
            match &self.children[i] {
                XmlNode::Element(c) => {
                    found.push(c);
                },
                XmlNode::Other(_) => {},
            }
            i = i + 1;
        }
        found
    }

    /// The first element in document order, among this element and the elements
    /// below it, whose tag is `name`.
    pub fn find_descendant(&self, name: &str) -> (res: Option<&XmlElement>)
        ensures
            match res {
                Some(d) => first_descendant(*self, name@) == Some(*d),
                None => first_descendant(*self, name@) is None,
            },
        decreases self,
    {
        if self.has_tag_name(name) {
            return Some(self);
        }
        let mut i: usize = 0;
        while i < self.children.len()
            invariant
                i <= self.children@.len(),
                self.name@ != name@,
                first_descendant_in(self.children@, name@, i as nat) == first_descendant(
                    *self,
                    name@,
                ),
            decreases self.children.len() - i,
        {
            match &self.children[i] {
                XmlNode::Element(c) => {
                    assert(decreases_to!(*self => self.children));
                    match c.find_descendant(name) {
                        Some(d) => {
                            return Some(d);
                        },
                        None => {},
                    }
                },
                XmlNode::Other(_) => {},
            }
            i = i + 1;
        }
        None
    }

    /// The row at which this element starts.
    pub fn line_number(&self) -> (res: u32)
        ensures
            res == self.row,
    {
        self.row
    }

    /// The message for a value that an attribute cannot hold.
    pub fn illegal_value(&self, name: &str, literal: &str) -> (res: String)
        ensures
            res@ == illegal_value_message(*self, name@, literal@),
    {
        let mut m = owned("Line ");
        let row = u64_to_decimal(self.row as u64);
        push_str(&mut m, row.as_str());
        push_str(&mut m, ": Illegal value '");
        push_str(&mut m, literal);
        push_str(&mut m, "' for attribute '");
        push_str(&mut m, name);
        push_str(&mut m, "' in <");
        push_str(&mut m, self.name.as_str());
        push_str(&mut m, ">.");
        m
    }

    /// The value of the attribute `name`, or the message that it is missing.
    pub fn required_attribute(&self, name: &str) -> (res: Result<String, String>)
        ensures
            match res {
                Ok(v) => self.spec_attribute(name@) == Some(v),
                Err(m) => self.spec_attribute(name@) is None && m@ == missing_attribute_message(
                    name@,
                ),
            },
    {
        match self.attribute(name) {
            Some(v) => Ok(v),
            None => {
                let mut m = owned("Missing required attribute '");
                push_str(&mut m, name);
                push_str(&mut m, "'");
                Err(m)
            },
        }
    }

    /// The value of the attribute `name`, or the message that the element misses it.
    pub fn required_attribute_in(&self, name: &str) -> (res: Result<String, String>)
        ensures
            match res {
                Ok(v) => self.spec_attribute(name@) == Some(v),
                Err(m) => self.spec_attribute(name@) is None && m@
                    == missing_attribute_in_message(*self, name@),
            },
    {
        match self.attribute(name) {
            Some(v) => Ok(v),
            None => {
                let mut m = owned("Missing required attribute '");
                push_str(&mut m, name);
                push_str(&mut m, "' in <");
                push_str(&mut m, self.name.as_str());
                push_str(&mut m, ">.");
                Err(m)
            },
        }
    }

    /// An optional boolean attribute (`true`, `false`, `1` or `0`).
    pub fn attribute_as_bool(&self, name: &str) -> (res: Result<Option<bool>, String>)
        ensures
            match res {
                Ok(v) => self.spec_bool_attribute(name@) == Ok::<Option<bool>, Seq<char>>(v),
                Err(m) => self.spec_bool_attribute(name@) == Err::<Option<bool>, Seq<char>>(m@),
            },
    {
        match self.attribute(name) {
            None => Ok(None),
            Some(v) => {
                let cs = chars_of(v.as_str());
                proof {
                    reveal_strlit("1");
                    reveal_strlit("0");
                    reveal_strlit("true");
                    reveal_strlit("false");
                }
                let normalized: Vec<char> = if cs.len() == 1 && cs[0] == '1' {
                    assert(cs@ =~= "1"@);
                    chars_of("true")
                } else if cs.len() == 1 && cs[0] == '0' {
                    assert(cs@ =~= "0"@);
                    chars_of("false")
                } else {
                    assert(cs@ != "1"@);
                    assert(cs@ != "0"@);
                    cs
                };
                match parse_bool_chars(normalized.as_slice()) {
                    Some(b) => Ok(Some(b)),
                    None => Err(self.illegal_value(name, v.as_str())),
                }
            },
        }
    }

    /// An optional integer attribute of the type whose values are `[min, max]`.
    pub fn attribute_as_integer(&self, name: &str, min: i64, max: u64) -> (res: Result<
        Option<i128>,
        String,
    >)
        requires
            min <= 0,
        ensures
            match res {
                Ok(Some(x)) => self.spec_integer_attribute(name@, min as int, max as int) == Ok::<
                    Option<int>,
                    Seq<char>,
                >(Some(x as int)),
                Ok(None) => self.spec_integer_attribute(name@, min as int, max as int) == Ok::<
                    Option<int>,
                    Seq<char>,
                >(None),
                Err(m) => self.spec_integer_attribute(name@, min as int, max as int) == Err::<
                    Option<int>,
                    Seq<char>,
                >(m@),
            },
            res matches Ok(Some(x)) ==> min <= x <= max,
    {
        match self.attribute(name) {
            None => Ok(None),
            Some(v) => {
                let cs = chars_of(v.as_str());
                match parse_integer_in(cs.as_slice(), min, max) {
                    Ok(x) => Ok(Some(x)),
                    Err(_) => Err(self.illegal_value(name, v.as_str())),
                }
            },
        }
    }

    /// An optional floating-point attribute, kept as its literal once it is known
    /// to be one that `str::parse::<f64>` accepts.
    pub fn attribute_as_float(&self, name: &str) -> (res: Result<Option<String>, String>)
        ensures
            match res {
                Ok(v) => self.spec_float_attribute(name@) == Ok::<Option<String>, Seq<char>>(v),
                Err(m) => self.spec_float_attribute(name@) == Err::<Option<String>, Seq<char>>(
                    m@,
                ),
            },
    {
        match self.attribute(name) {
            None => Ok(None),
            Some(v) => {
                let cs = chars_of(v.as_str());
                if is_float_literal_chars(cs.as_slice()) {
                    Ok(Some(v))
                } else {
                    Err(self.illegal_value(name, v.as_str()))
                }
            },
        }
    }
}

} // verus!
