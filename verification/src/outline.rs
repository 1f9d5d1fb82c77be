//! A document written out as text, one node to a line, for a look at what
//! the parser has made of a page.

use vstd::prelude::*;
use crate::dom::{lemma_children_walkable, walkable, Attribute, DocumentNode, NodeData};
use crate::text::push_char;

verus! {

/// How far the children of a node are indented further than the node.
pub const OUTLINE_STEP: usize = 4;

/// The hexadecimal digit for a number below sixteen.
pub open spec fn hex_digit(d: nat) -> char {
    "0123456789abcdef"@[d as int]
}

/// A number in hexadecimal, without leading zeros.
pub open spec fn hex_digits(n: nat) -> Seq<char>
    decreases n,
{
    if n < 16 {
        seq![hex_digit(n)]
    } else {
        hex_digits(n / 16).push(hex_digit(n % 16))
    }
}

/// A character written so that it shows on any terminal: tab, carriage
/// return, line feed, both quotes and the backslash get a backslash escape,
/// the printable characters of ASCII stand for themselves, and every other
/// character is written as `\u{..}` with its number in hexadecimal.
pub open spec fn escape_char(c: char) -> Seq<char> {
    if c == '\t' {
        seq!['\\', 't']
    } else if c == '\r' {
        seq!['\\', 'r']
    } else if c == '\n' {
        seq!['\\', 'n']
    } else if c == '\'' {
        seq!['\\', '\'']
    } else if c == '"' {
        seq!['\\', '"']
    } else if c == '\\' {
        seq!['\\', '\\']
    } else if 0x20 <= c as u32 <= 0x7e {
        seq![c]
    } else {
        seq!['\\', 'u', '{'] + hex_digits(c as u32 as nat) + seq!['}']
    }
}

/// A text with each of its characters escaped.
pub open spec fn escape_text(text: Seq<char>) -> Seq<char>
    decreases text.len(),
{
    if text.len() == 0 {
        seq![]
    } else {
        escape_text(text.drop_last()) + escape_char(text.last())
    }
}

/// Appends a number in hexadecimal.
fn push_hex(out: &mut String, n: u32)
    ensures
        final(out)@ == old(out)@ + hex_digits(n as nat),
    decreases n,
{
    proof {
        reveal_strlit("0123456789abcdef");
    }
    if n >= 16 {
        push_hex(out, n / 16);
    }
    let digit = "0123456789abcdef".get_char((n % 16) as usize);
    push_char(out, digit);
}

/// Appends a character, escaped.
fn push_escaped_char(out: &mut String, c: char)
    ensures
        final(out)@ == old(out)@ + escape_char(c),
{
    let n: u32 = c as u32;
    if n == 0x09 {
        push_char(out, '\\');
        push_char(out, 't');
    } else if n == 0x0d {
        push_char(out, '\\');
        push_char(out, 'r');
    } else if n == 0x0a {
        push_char(out, '\\');
        push_char(out, 'n');
    } else if n == 0x27 || n == 0x22 || n == 0x5c {
        push_char(out, '\\');
        push_char(out, c);
    } else if 0x20 <= n && n <= 0x7e {
        push_char(out, c);
    } else {
        push_char(out, '\\');
        push_char(out, 'u');
        push_char(out, '{');
        push_hex(out, n);
        push_char(out, '}');
    }
}

/// Appends a text with each of its characters escaped.
pub fn push_escaped(out: &mut String, text: &str)
    ensures
        final(out)@ == old(out)@ + escape_text(text@),
{
    let ghost before = out@;
    for c in it: text.chars()
        invariant
            it.seq() == text@,
            out@ == before + escape_text(text@.take(it.index())),
    {
        assert(text@.take(it.index() + 1).drop_last() =~= text@.take(it.index()));
        push_escaped_char(out, c);
    }
    assert(text@.take(text@.len() as int) =~= text@);
}

/// A run of spaces.
pub open spec fn spaces(n: nat) -> Seq<char> {
    Seq::new(n, |i: int| ' ')
}

/// The first `upto` attributes of an element, each written as ` name="value"`.
pub open spec fn attrs_text(attrs: Seq<Attribute>, upto: int) -> Seq<char>
    decreases upto,
{
    if 0 < upto <= attrs.len() {
        attrs_text(attrs, upto - 1) + " "@ + attrs[upto - 1].name@ + "=\""@ + attrs[upto
            - 1].value@ + "\""@
    } else {
        seq![]
    }
}

/// What stands for a node by itself on its line. Text and comments are
/// escaped; names and attributes are not.
pub open spec fn node_line(node: DocumentNode) -> Seq<char> {
    match node.data {
        NodeData::Document => "#Document"@,
        NodeData::Doctype { name, public_id, system_id } => "<!DOCTYPE "@ + name@ + " \""@
            + public_id@ + "\" \""@ + system_id@ + "\">"@,
        NodeData::Text { contents } => "#text: "@ + escape_text(contents@),
        NodeData::Comment { contents } => "<!-- "@ + escape_text(contents@) + " -->"@,
        NodeData::Element { name, attrs } => "<"@ + name@ + attrs_text(
            attrs@,
            attrs.len() as int,
        ) + ">"@,
        NodeData::ProcessingInstruction { target, contents } => seq![],
    }
}

/// A node and everything below it, written out: one line for each node, in
/// document order, each indented by four spaces more than the node above it.
pub open spec fn outline(node: DocumentNode, indent: nat) -> Seq<char>
    decreases node, node.children.len() + 1,
{
    spaces(indent) + node_line(node) + "\n"@ + children_outline(
        node,
        node.children.len() as int,
        indent,
    )
}

/// The first `upto` children of a node and everything below them, written
/// out.
pub open spec fn children_outline(node: DocumentNode, upto: int, indent: nat) -> Seq<char>
    decreases node, upto,
{
    if 0 < upto <= node.children.len() {
        children_outline(node, upto - 1, indent) + outline(
            node.children[upto - 1],
            indent + OUTLINE_STEP as nat,
        )
    } else {
        seq![]
    }
}

/// Appends a run of spaces.
fn push_spaces(out: &mut String, n: usize)
    ensures
        final(out)@ == old(out)@ + spaces(n as nat),
{
    let mut i: usize = 0;
    while i < n
        invariant
            i <= n,
            out@ == old(out)@ + spaces(i as nat),
        decreases n - i,
    {
        push_char(out, ' ');
        i += 1;
    }
}

/// Appends what stands for a node by itself.
fn push_node_line(out: &mut String, node: &DocumentNode)
    requires
        !(node.data is ProcessingInstruction),
    ensures
        final(out)@ == old(out)@ + node_line(*node),
{
    match &node.data {
        NodeData::Document => {
            out.append("#Document");
        },
        NodeData::Doctype { name, public_id, system_id } => {
            out.append("<!DOCTYPE ");
            out.append(name.as_str());
            out.append(" \"");
            out.append(public_id.as_str());
            out.append("\" \"");
            out.append(system_id.as_str());
            out.append("\">");
        },
        NodeData::Text { contents } => {
            out.append("#text: ");
            push_escaped(out, contents.as_str());
        },
        NodeData::Comment { contents } => {
            out.append("<!-- ");
            push_escaped(out, contents.as_str());
            out.append(" -->");
        },
        NodeData::Element { name, attrs } => {
            out.append("<");
            out.append(name.as_str());
            let ghost head = out@;
            let mut i: usize = 0;
            while i < attrs.len()
                invariant
                    i <= attrs.len(),
                    out@ == head + attrs_text(attrs@, i as int),
                decreases attrs.len() - i,
            {
                out.append(" ");
                out.append(attrs[i].name.as_str());
                out.append("=\"");
                out.append(attrs[i].value.as_str());
                out.append("\"");
                i += 1;
            }
            out.append(">");
        },
        NodeData::ProcessingInstruction { .. } => {},
    }
}

/// Writes out a node and everything below it, and appends that to `out`.
/// The line of the node is indented by `indent` spaces.
pub fn print_dom(indent: usize, node: &DocumentNode, out: &mut String)
    requires
        walkable(*node, indent as nat, OUTLINE_STEP as nat),
    ensures
        final(out)@ == old(out)@ + outline(*node, indent as nat),
    decreases *node,
{
    push_spaces(out, indent);
    push_node_line(out, node);
    out.append("\n");
    let ghost own = out@;
    let mut i: usize = 0;
    while i < node.children.len()
        invariant
            i <= node.children.len(),
            walkable(*node, indent as nat, OUTLINE_STEP as nat),
            out@ == own + children_outline(*node, i as int, indent as nat),
        decreases node.children.len() - i,
    {
        proof {
            lemma_children_walkable(
                *node,
                i + 1,
                node.children.len() as int,
                indent as nat,
                OUTLINE_STEP as nat,
            );
        }
        print_dom(indent + OUTLINE_STEP, &node.children[i], out);
        i += 1;
    }
}

} // verus!
