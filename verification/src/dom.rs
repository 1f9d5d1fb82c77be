//! The document tree that layout reads. A parser builds it; layout never
//! changes it.

use vstd::prelude::*;
use crate::text::str_eq;

verus! {

/// One attribute of an element.
#[derive(Debug)]
pub struct Attribute {
    pub name: String,
    pub value: String,
}

/// What a node of the document is.
#[derive(Debug)]
pub enum NodeData {
    Document,
    Doctype { name: String, public_id: String, system_id: String },
    Text { contents: String },
    Comment { contents: String },
    Element { name: String, attrs: Vec<Attribute> },
    ProcessingInstruction { target: String, contents: String },
}

/// A node of the document with the nodes below it, in document order.
#[derive(Debug)]
pub struct DocumentNode {
    pub data: NodeData,
    pub children: Vec<DocumentNode>,
}

/// The value of the first attribute named `name` among the first `upto`
/// attributes.
pub open spec fn attr_value(attrs: Seq<Attribute>, name: Seq<char>, upto: int) -> Option<Seq<char>>
    decreases upto,
{
    if upto <= 0 {
        None
    } else {
        match attr_value(attrs, name, upto - 1) {
            Some(value) => Some(value),
            None => if attrs[upto - 1].name@ == name {
                Some(attrs[upto - 1].value@)
            } else {
                None
            },
        }
    }
}

/// The value of the first attribute named `name`.
pub open spec fn attribute(attrs: Seq<Attribute>, name: Seq<char>) -> Option<Seq<char>> {
    attr_value(attrs, name, attrs.len() as int)
}

/// Looks up the value of the first attribute named `name`.
pub fn find_attribute<'a>(attrs: &'a Vec<Attribute>, name: &str) -> (value: Option<&'a String>)
    ensures
        value is Some == attribute(attrs@, name@) is Some,
        value matches Some(v) ==> attribute(attrs@, name@) == Some(v@),
{
    let mut i: usize = 0;
    while i < attrs.len()
        invariant
            i <= attrs.len(),
            attr_value(attrs@, name@, i as int) is None,
        decreases attrs.len() - i,
    {
        if str_eq(attrs[i].name.as_str(), name) {
            proof {
                lemma_attr_value_stays(attrs@, name@, i + 1, attrs.len() as int);
            }
            return Some(&attrs[i].value);
        }
        i += 1;
    }
    None
}

/// Once an attribute has been found, looking further does not change it.
proof fn lemma_attr_value_stays(attrs: Seq<Attribute>, name: Seq<char>, found: int, upto: int)
    requires
        found <= upto,
        attr_value(attrs, name, found) is Some,
    ensures
        attr_value(attrs, name, upto) == attr_value(attrs, name, found),
    decreases upto - found,
{
    if found < upto {
        lemma_attr_value_stays(attrs, name, found, upto - 1);
    }
}

/// Whether a walk can go through a node and everything below it, where the
/// node stands at `indent` and each level stands `step` further in: no node
/// is a processing instruction, which no parser of HTML hands out, and the
/// indent of every node is a number that the machine can hold.
pub open spec fn walkable(node: DocumentNode, indent: nat, step: nat) -> bool
    decreases node, node.children.len() + 1,
{
    &&& !(node.data is ProcessingInstruction)
    &&& node.children.len() > 0 ==> indent + step <= usize::MAX
    &&& children_walkable(node, node.children.len() as int, indent, step)
}

/// Whether a walk can go through the first `upto` children of a node and
/// everything below them.
pub open spec fn children_walkable(node: DocumentNode, upto: int, indent: nat, step: nat) -> bool
    decreases node, upto,
{
    if 0 < upto <= node.children.len() {
        children_walkable(node, upto - 1, indent, step) && walkable(
            node.children[upto - 1],
            indent + step,
            step,
        )
    } else {
        true
    }
}

/// Where a walk can go through some of the children, it can go through the
/// first of them.
pub proof fn lemma_children_walkable(
    node: DocumentNode,
    some: int,
    upto: int,
    indent: nat,
    step: nat,
)
    requires
        0 <= some <= upto <= node.children.len(),
        children_walkable(node, upto, indent, step),
    ensures
        children_walkable(node, some, indent, step),
    decreases upto - some,
{
    if some < upto {
        lemma_children_walkable(node, some, upto - 1, indent, step);
    }
}

/// Tells whether a walk can go through a node and everything below it.
pub fn can_walk(indent: usize, step: usize, node: &DocumentNode) -> (ok: bool)
    ensures
        ok == walkable(*node, indent as nat, step as nat),
    decreases *node,
{
    if let NodeData::ProcessingInstruction { .. } = &node.data {
        return false;
    }
    if node.children.len() == 0 {
        return true;
    }
    if step > usize::MAX - indent {
        return false;
    }
    let mut i: usize = 0;
    while i < node.children.len()
        invariant
            i <= node.children.len(),
            indent + step <= usize::MAX,
            children_walkable(*node, i as int, indent as nat, step as nat),
        decreases node.children.len() - i,
    {
        if !can_walk(indent + step, step, &node.children[i]) {
            proof {
                if children_walkable(
                    *node,
                    node.children.len() as int,
                    indent as nat,
                    step as nat,
                ) {
                    lemma_children_walkable(
                        *node,
                        i + 1,
                        node.children.len() as int,
                        indent as nat,
                        step as nat,
                    );
                }
            }
            return false;
        }
        i += 1;
    }
    true
}

} // verus!
