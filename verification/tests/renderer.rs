use html_layout::dom::{Attribute, DocumentNode, NodeData};
use html_layout::renderer::{can_render, render, LayoutOp};

fn text(contents: &str) -> DocumentNode {
    DocumentNode { data: NodeData::Text { contents: contents.to_string() }, children: Vec::new() }
}

fn element(name: &str, attrs: Vec<(&str, &str)>, children: Vec<DocumentNode>) -> DocumentNode {
    let attrs = attrs
        .into_iter()
        .map(|(name, value)| Attribute { name: name.to_string(), value: value.to_string() })
        .collect();
    DocumentNode { data: NodeData::Element { name: name.to_string(), attrs }, children }
}

fn document(children: Vec<DocumentNode>) -> DocumentNode {
    DocumentNode { data: NodeData::Document, children }
}

fn ops_of(node: &DocumentNode, tag: &str, indent: usize) -> Vec<LayoutOp> {
    assert!(can_render(indent, node));
    let mut ops = Vec::new();
    render(indent, node, tag, &mut ops);
    ops
}

fn run(contents: &str, tag: &str, depth: usize) -> LayoutOp {
    LayoutOp::Text { text: contents.to_string(), tag: tag.to_string(), depth }
}

#[test]
fn a_text_node_becomes_a_run_of_text() {
    assert_eq!(ops_of(&text("Hello"), "p", 3), vec![run("Hello", "p", 3)]);
    assert_eq!(ops_of(&text("Hello"), "", 0), vec![run("Hello", "", 0)]);
}

#[test]
fn blank_text_is_left_out() {
    assert_eq!(ops_of(&text(""), "p", 1), vec![]);
    assert_eq!(ops_of(&text("\n   \t"), "p", 1), vec![]);
}

#[test]
fn text_below_invisible_tags_is_not_drawn() {
    for tag in ["style", "script", "head", "meta", "link", "img"] {
        assert_eq!(ops_of(&text("body { margin: 0 }"), tag, 2), vec![], "{}", tag);
    }
}

#[test]
fn text_below_title_names_the_window() {
    assert_eq!(
        ops_of(&text("My page"), "title", 3),
        vec![LayoutOp::Title { text: "My page".to_string() }]
    );
    assert_eq!(ops_of(&text(" "), "title", 3), vec![LayoutOp::Title { text: " ".to_string() }]);
}

#[test]
fn text_below_br_breaks_the_line() {
    assert_eq!(ops_of(&text("anything"), "br", 3), vec![LayoutOp::LineBreak]);
    assert_eq!(ops_of(&text(""), "br", 3), vec![LayoutOp::LineBreak]);
}

#[test]
fn an_image_carries_its_source() {
    let img = element("img", vec![("alt", "x"), ("src", "a.png"), ("src", "b.png")], vec![]);
    assert_eq!(
        ops_of(&img, "p", 4),
        vec![LayoutOp::Image { src: Some("a.png".to_string()), depth: 4 }]
    );
    let bare = element("img", vec![("alt", "x")], vec![]);
    assert_eq!(ops_of(&bare, "p", 4), vec![LayoutOp::Image { src: None, depth: 4 }]);
}

#[test]
fn children_see_the_tag_of_their_parent_only() {
    // The text stands below `span`, which stands below `a`: it does not see the `a`.
    let tree = element("a", vec![], vec![element("span", vec![], vec![text("link")])]);
    assert_eq!(ops_of(&tree, "", 0), vec![run("link", "span", 2)]);
    // Hidden parents do not hide what stands below a visible child.
    let tree = element("head", vec![], vec![element("p", vec![], vec![text("shown")])]);
    assert_eq!(ops_of(&tree, "", 0), vec![run("shown", "p", 2)]);
}

#[test]
fn nodes_are_walked_in_document_order() {
    let tree = document(vec![
        DocumentNode {
            data: NodeData::Doctype {
                name: "html".to_string(),
                public_id: String::new(),
                system_id: String::new(),
            },
            children: vec![],
        },
        element(
            "html",
            vec![],
            vec![
                element("head", vec![], vec![element("title", vec![], vec![text("T")])]),
                element(
                    "body",
                    vec![],
                    vec![
                        element("h1", vec![], vec![text("Hi")]),
                        DocumentNode {
                            data: NodeData::Comment { contents: "note".to_string() },
                            children: vec![text("inside a comment")],
                        },
                        element(
                            "p",
                            vec![],
                            vec![
                                text("one "),
                                element("img", vec![("src", "x.png")], vec![]),
                                element("a", vec![], vec![text("two")]),
                                text("\n"),
                            ],
                        ),
                    ],
                ),
            ],
        ),
    ]);
    assert_eq!(
        ops_of(&tree, "", 0),
        vec![
            LayoutOp::Title { text: "T".to_string() },
            run("Hi", "h1", 4),
            run("inside a comment", "", 4),
            run("one ", "p", 4),
            LayoutOp::Image { src: Some("x.png".to_string()), depth: 4 },
            run("two", "a", 5),
        ]
    );
}

#[test]
fn render_adds_to_what_is_there() {
    let mut ops = vec![LayoutOp::LineBreak];
    render(0, &text("x"), "p", &mut ops);
    assert_eq!(ops, vec![LayoutOp::LineBreak, run("x", "p", 0)]);
}

#[test]
fn processing_instructions_cannot_be_rendered() {
    let pi = DocumentNode {
        data: NodeData::ProcessingInstruction {
            target: "xml".to_string(),
            contents: String::new(),
        },
        children: vec![],
    };
    assert!(!can_render(0, &pi));
    let tree = document(vec![element("p", vec![], vec![text("fine"), pi])]);
    assert!(!can_render(0, &tree));
    assert!(can_render(0, &document(vec![element("p", vec![], vec![text("fine")])])));
}

#[test]
fn depth_must_fit() {
    assert!(can_render(usize::MAX, &text("leaf")));
    assert!(!can_render(usize::MAX, &element("p", vec![], vec![text("leaf")])));
    assert!(can_render(usize::MAX - 1, &element("p", vec![], vec![text("leaf")])));
}
