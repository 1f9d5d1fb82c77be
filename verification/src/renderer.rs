//! The tree walk: it reads a document in document order and writes down, one
//! after another, what a layout pass has to place.

use vstd::prelude::*;
use crate::dom::{
    attribute, can_walk, find_attribute, lemma_children_walkable, walkable, DocumentNode, NodeData,
};
use crate::style::{is_invisible, is_invisible_tag};
use crate::text::{is_blank, is_blank_text, str_eq};

verus! {

/// One thing that a layout pass has to deal with.
#[derive(Debug, PartialEq, Eq)]
pub enum LayoutOp {
    /// Make `text` the title of the window.
    Title { text: String },
    /// Move down by one line.
    LineBreak,
    /// Wrap and place the text of a node that stands directly below the
    /// element `tag`, `depth` levels below the root.
    Text { text: String, tag: String, depth: usize },
    /// Place the image that `src` names, for an `img` element `depth` levels
    /// below the root. `src` is `None` where the element has no such
    /// attribute.
    Image { src: Option<String>, depth: usize },
}

/// What a [`LayoutOp`] stands for.
pub enum LayoutOpView {
    Title { text: Seq<char> },
    LineBreak,
    Text { text: Seq<char>, tag: Seq<char>, depth: nat },
    Image { src: Option<Seq<char>>, depth: nat },
}

impl View for LayoutOp {
    type V = LayoutOpView;

    open spec fn view(&self) -> LayoutOpView {
        match *self {
            LayoutOp::Title { text } => LayoutOpView::Title { text: text@ },
            LayoutOp::LineBreak => LayoutOpView::LineBreak,
            LayoutOp::Text { text, tag, depth } => LayoutOpView::Text {
                text: text@,
                tag: tag@,
                depth: depth as nat,
            },
            LayoutOp::Image { src, depth } => LayoutOpView::Image {
                src: match src {
                    Some(s) => Some(s@),
                    None => None,
                },
                depth: depth as nat,
            },
        }
    }
}

/// What a sequence of operations stands for.
pub open spec fn op_views(ops: Seq<LayoutOp>) -> Seq<LayoutOpView> {
    Seq::new(ops.len(), |i: int| ops[i]@)
}

/// What a text node gives rise to, where it stands directly below `tag`.
/// Below `title` it names the window and below `br` it breaks the line; it is
/// drawn where it is not blank and the tag does not hide it.
pub open spec fn text_ops(contents: Seq<char>, tag: Seq<char>, depth: nat) -> Seq<LayoutOpView> {
    let title = if tag == "title"@ {
        seq![LayoutOpView::Title { text: contents }]
    } else {
        seq![]
    };
    let line_break = if tag == "br"@ {
        seq![LayoutOpView::LineBreak]
    } else {
        seq![]
    };
    let run = if !is_blank(contents) && !is_invisible(tag) {
        seq![LayoutOpView::Text { text: contents, tag, depth }]
    } else {
        seq![]
    };
    title + line_break + run
}

/// What a node gives rise to by itself, apart from the nodes below it.
pub open spec fn node_ops(node: DocumentNode, tag: Seq<char>, depth: nat) -> Seq<LayoutOpView> {
    match node.data {
        NodeData::Text { contents } => text_ops(contents@, tag, depth),
        NodeData::Element { name, attrs } => if name@ == "img"@ {
            seq![LayoutOpView::Image { src: attribute(attrs@, "src"@), depth }]
        } else {
            seq![]
        },
        _ => seq![],
    }
}

/// The tag that the children of a node see: the name of the node if it is an
/// element, and the empty tag otherwise. A node never sees more of its
/// ancestors than this.
pub open spec fn child_tag(node: DocumentNode) -> Seq<char> {
    match node.data {
        NodeData::Element { name, attrs } => name@,
        _ => Seq::empty(),
    }
}

/// What a node and everything below it give rise to, in document order.
pub open spec fn tree_ops(node: DocumentNode, tag: Seq<char>, depth: nat) -> Seq<LayoutOpView>
    decreases node, node.children.len() + 1,
{
    node_ops(node, tag, depth) + children_ops(node, node.children.len() as int, depth)
}

/// What the first `upto` children of a node, and everything below them, give
/// rise to.
pub open spec fn children_ops(node: DocumentNode, upto: int, depth: nat) -> Seq<LayoutOpView>
    decreases node, upto,
{
    if 0 < upto <= node.children.len() {
        children_ops(node, upto - 1, depth) + tree_ops(
            node.children[upto - 1],
            child_tag(node),
            depth + 1,
        )
    } else {
        seq![]
    }
}


/// Whether a node, `depth` levels below the root, and everything below it
/// can be laid out: no node is a processing instruction, which no parser of
/// HTML hands out, and every depth in the tree is a number that the machine
/// can hold.
pub open spec fn renderable(node: DocumentNode, depth: nat) -> bool {
    walkable(node, depth, 1)
}

/// Tells whether a node, `indent` levels below the root, and everything
/// below it can be laid out.
pub fn can_render(indent: usize, node: &DocumentNode) -> (ok: bool)
    ensures
        ok == renderable(*node, indent as nat),
{
    can_walk(indent, 1, node)
}

/// Writes down what a text node gives rise to.
fn render_text(indent: usize, contents: &String, tag_name: &str, ops: &mut Vec<LayoutOp>)
    ensures
        op_views(final(ops)@) == op_views(old(ops)@) + text_ops(
            contents@,
            tag_name@,
            indent as nat,
        ),
{
    if str_eq(tag_name, "title") {
        ops.push(LayoutOp::Title { text: contents.clone() });
    }
    if str_eq(tag_name, "br") {
        ops.push(LayoutOp::LineBreak);
    }
    if !is_blank_text(contents.as_str()) && !is_invisible_tag(tag_name) {
        ops.push(
            LayoutOp::Text { text: contents.clone(), tag: tag_name.to_owned(), depth: indent },
        );
    }
}

/// Walks a node and everything below it in document order, and adds to `ops`
/// what a layout pass has to place for them. `indent` is the depth of the
/// node below the root, and `tag_name` the name of the element directly
/// above it, or the empty string where that is no element.
pub fn render(indent: usize, node: &DocumentNode, tag_name: &str, ops: &mut Vec<LayoutOp>)
    requires
        renderable(*node, indent as nat),
    ensures
        op_views(final(ops)@) == op_views(old(ops)@) + tree_ops(*node, tag_name@, indent as nat),
    decreases *node,
{
    let ghost before = op_views(ops@);
    let mut next_tag_name: &str = "";
    proof {
        reveal_strlit("");
    }
    match &node.data {
        NodeData::Text { contents } => {
            render_text(indent, contents, tag_name, ops);
        },
        NodeData::Element { name, attrs } => {
            next_tag_name = name.as_str();
            if str_eq(name.as_str(), "img") {
                let src = match find_attribute(attrs, "src") {
                    Some(value) => Some(value.clone()),
                    None => None,
                };
                ops.push(LayoutOp::Image { src, depth: indent });
            }
        },
        _ => {},
    }
    let ghost own = before + node_ops(*node, tag_name@, indent as nat);
    let mut i: usize = 0;
    while i < node.children.len()
        invariant
            i <= node.children.len(),
            renderable(*node, indent as nat),
            next_tag_name@ == child_tag(*node),
            op_views(ops@) == own + children_ops(*node, i as int, indent as nat),
        decreases node.children.len() - i,
    {
        proof {
            lemma_children_walkable(*node, i + 1, node.children.len() as int, indent as nat, 1);
        }
        render(indent + 1, &node.children[i], next_tag_name, ops);
        i += 1;
    }
}

} // verus!
