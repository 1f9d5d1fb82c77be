use html_layout::colorscheme::{Color, DefaultColorSchemes};
use html_layout::context::RendererContext;
use html_layout::dom::{Attribute, DocumentNode, NodeData};
use html_layout::hitmap::{ClickAction, HitRegion};
use html_layout::pass::{Action, Event, LayoutError, LayoutPass};
use html_layout::renderer::{can_render, render, LayoutOp};
use html_layout::style::FontStyle;

const NORMAL: FontStyle = FontStyle { bold: false, underline: false };
const BOLD: FontStyle = FontStyle { bold: true, underline: false };
const UNDERLINE: FontStyle = FontStyle { bold: false, underline: true };
const BLACK: Color = Color { r: 0, g: 0, b: 0, a: 255 };

fn text(contents: &str) -> DocumentNode {
    DocumentNode { data: NodeData::Text { contents: contents.to_string() }, children: Vec::new() }
}

fn element(name: &str, attrs: Vec<(&str, &str)>, children: Vec<DocumentNode>) -> DocumentNode {
    let attrs = attrs
        .into_iter()
        .map(|(name, value)| Attribute { name: name.to_string(), value: value.to_string() })
        .collect();
    DocumentNode { data: NodeData::Element { name: name.to_string(), attrs }, children }
}

fn document(children: Vec<DocumentNode>) -> DocumentNode {
    DocumentNode { data: NodeData::Document, children }
}

fn ops_of(root: &DocumentNode) -> Vec<LayoutOp> {
    assert!(can_render(0, root));
    let mut ops = Vec::new();
    render(0, root, "", &mut ops);
    ops
}

fn fresh(scaling_factor: u32) -> RendererContext {
    RendererContext::new(scaling_factor, DefaultColorSchemes::Standard.value())
}

fn region(x: i64, y: i64, width: u32, height: u32, action: ClickAction) -> HitRegion {
    HitRegion { x, y, width, height, action }
}

fn run(contents: &str, tag: &str, depth: usize) -> LayoutOp {
    LayoutOp::Text { text: contents.to_string(), tag: tag.to_string(), depth }
}

fn image(src: &str, depth: usize) -> LayoutOp {
    LayoutOp::Image { src: Some(src.to_string()), depth }
}

/// A backend for the tests. A font loaded at 50 pixels: every character is
/// 20 wide and every line 50 high. Every image is 30 by 40, except those
/// whose name holds "missing".
struct Backend {
    titles: Vec<String>,
    drawn: Vec<String>,
    fetched: Vec<String>,
    decoded: Vec<String>,
    read: Vec<String>,
    actions: usize,
}

impl Backend {
    fn new() -> Backend {
        Backend {
            titles: Vec::new(),
            drawn: Vec::new(),
            fetched: Vec::new(),
            decoded: Vec::new(),
            read: Vec::new(),
            actions: 0,
        }
    }

    fn load(name: &str) -> Event {
        if name.contains("missing") {
            Event::ImageLoadFailed
        } else {
            Event::ImageLoaded { width: 30, height: 40 }
        }
    }

    /// Drives a pass to its end and returns the action it ended with.
    fn drive(&mut self, pass: &mut LayoutPass, context: &mut RendererContext) -> Action {
        let mut event = Event::Resume;
        loop {
            let action = pass.step(context, event);
            self.actions += 1;
            assert!(self.actions < 10000);
            event = match action {
                Action::Continue => Event::Resume,
                Action::SetTitle { title } => {
                    self.titles.push(title);
                    Event::Resume
                }
                Action::MeasureText { text, style } => {
                    assert_eq!(context.active_style(), style);
                    Event::TextMeasured { width: 20 * text.chars().count() as u32, height: 50 }
                }
                Action::DrawText { text, style, .. } => {
                    assert_eq!(context.active_style(), style);
                    self.drawn.push(text);
                    Event::Resume
                }
                Action::FetchImage { url } => {
                    assert_eq!(context.cached_image(&url), None);
                    self.fetched.push(url.clone());
                    if url.contains("unreachable") {
                        Event::ImageFetchFailed
                    } else {
                        Event::ImageFetched { bytes: url.into_bytes() }
                    }
                }
                Action::DecodeImage { url } => {
                    assert_eq!(context.cached_image(&url), Some(&url.clone().into_bytes()));
                    self.decoded.push(url.clone());
                    Backend::load(&url)
                }
                Action::LoadImageFile { path } => {
                    self.read.push(path.clone());
                    Backend::load(&path)
                }
                Action::DrawImage { .. } => {
                    self.drawn.push("<image>".to_string());
                    Event::Resume
                }
                Action::Finished | Action::Failed { .. } => return action,
            };
        }
    }
}

fn lay_out(ops: Vec<LayoutOp>, window_width: u32, context: &mut RendererContext) -> Backend {
    let mut pass = LayoutPass::new(ops, window_width, context);
    let mut backend = Backend::new();
    assert_eq!(backend.drive(&mut pass, context), Action::Finished);
    assert!(pass.is_complete());
    assert_eq!(pass.error(), None);
    assert_eq!(context.active_style(), NORMAL);
    backend
}

fn hi_world() -> DocumentNode {
    document(vec![element(
        "html",
        vec![],
        vec![
            element("head", vec![], vec![]),
            element(
                "body",
                vec![],
                vec![
                    element("h1", vec![], vec![text("Hi")]),
                    element("p", vec![], vec![text("World")]),
                ],
            ),
        ],
    )])
}

#[test]
fn end_to_end_heading_and_paragraph() {
    let mut context = fresh(1);
    let backend = lay_out(ops_of(&hi_world()), 800, &mut context);
    // "Hi " is 60 wide at 50 pixels, so 39 at 32; "World " is 120, so 39 at 16.
    assert_eq!(
        context.hit_map(),
        &vec![
            region(48, 0, 39, 32, ClickAction::Text),
            region(48, 32, 39, 16, ClickAction::Text),
        ]
    );
    assert_eq!(context.hit_map().len(), 2);
    assert_eq!((context.hit_map()[0].y, context.hit_map()[0].height), (0, 32));
    assert_eq!((context.hit_map()[1].y, context.hit_map()[1].height), (32, 16));
    assert_eq!(context.indices(), (48, 48));
    assert_eq!(backend.drawn, vec!["Hi ", "World "]);
}

#[test]
fn every_step_of_a_line() {
    let mut context = fresh(1);
    let mut pass = LayoutPass::new(vec![run("Hi", "h1", 2)], 800, &mut context);
    assert!(!pass.is_complete());
    assert_eq!(
        pass.step(&mut context, Event::Resume),
        Action::MeasureText { text: "Hi ".to_string(), style: BOLD }
    );
    assert_eq!(context.active_style(), BOLD);
    assert!(context.hit_map().is_empty());
    assert_eq!(
        pass.step(&mut context, Event::TextMeasured { width: 60, height: 50 }),
        Action::DrawText {
            text: "Hi ".to_string(),
            style: BOLD,
            color: BLACK,
            region: region(24, 0, 39, 32, ClickAction::Text),
        }
    );
    assert_eq!(context.active_style(), BOLD);
    assert_eq!(context.hit_map(), &vec![region(24, 0, 39, 32, ClickAction::Text)]);
    assert_eq!(context.indices(), (24, 32));
    assert_eq!(pass.step(&mut context, Event::Resume), Action::Finished);
    assert_eq!(context.active_style(), NORMAL);
    assert!(pass.is_complete());
    assert_eq!(pass.step(&mut context, Event::Resume), Action::Finished);
}

#[test]
fn links_are_drawn_in_their_style() {
    let mut context = fresh(1);
    let mut pass = LayoutPass::new(vec![run("here", "a", 1), run("there", "p", 1)], 800, &mut context);
    assert_eq!(
        pass.step(&mut context, Event::Resume),
        Action::MeasureText { text: "here ".to_string(), style: UNDERLINE }
    );
    assert_eq!(
        pass.step(&mut context, Event::TextMeasured { width: 100, height: 50 }),
        Action::DrawText {
            text: "here ".to_string(),
            style: UNDERLINE,
            color: Color::rgb(0, 0, 238),
            region: region(12, 0, 32, 16, ClickAction::Text),
        }
    );
    // The style of the link does not reach the text after it.
    assert_eq!(
        pass.step(&mut context, Event::Resume),
        Action::MeasureText { text: "there ".to_string(), style: NORMAL }
    );
    assert_eq!(context.active_style(), NORMAL);
}

#[test]
fn long_text_is_placed_line_by_line() {
    let mut context = fresh(1);
    // Words cost 4 * 16 = 64; the lines may cost 2 * 100 = 200, so three fit.
    let backend = lay_out(vec![run("aaaa bbbb cccc dddd eeee ffff gggg", "p", 1)], 100, &mut context);
    assert_eq!(backend.drawn, vec!["aaaa bbbb cccc ", "dddd eeee ffff ", "gggg "]);
    assert_eq!(
        context.hit_map(),
        &vec![
            region(12, 0, 96, 16, ClickAction::Text),
            region(12, 16, 96, 16, ClickAction::Text),
            region(12, 32, 32, 16, ClickAction::Text),
        ]
    );
    assert_eq!(context.indices(), (12, 48));
}

#[test]
fn scaling_factor_scales_everything() {
    let mut context = fresh(2);
    lay_out(ops_of(&hi_world()), 800, &mut context);
    assert_eq!(
        context.hit_map(),
        &vec![
            region(96, 0, 77, 64, ClickAction::Text),
            region(96, 64, 77, 32, ClickAction::Text),
        ]
    );
}

#[test]
fn regions_carry_the_scroll_offset() {
    let mut context = fresh(1);
    context.scroll(-2, -10);
    lay_out(ops_of(&hi_world()), 800, &mut context);
    assert_eq!(
        context.hit_map(),
        &vec![
            region(24, -120, 39, 32, ClickAction::Text),
            region(24, -88, 39, 16, ClickAction::Text),
        ]
    );
    assert_eq!(context.indices(), (48, 48));
    assert_eq!(context.viewport(), (-24, -120));
}

#[test]
fn two_passes_give_the_same_regions() {
    let mut context = fresh(1);
    context.scroll(1, -3);
    let tree = document(vec![element(
        "body",
        vec![],
        vec![
            element("h2", vec![], vec![text("A heading that is long enough to be wrapped")]),
            element("img", vec![("src", "http://example.com/a.png")], vec![]),
            element("p", vec![], vec![text("and a paragraph")]),
        ],
    )]);
    lay_out(ops_of(&tree), 120, &mut context);
    let first = context.hit_map().clone();
    assert_eq!(first.len(), 6);
    lay_out(ops_of(&tree), 120, &mut context);
    assert_eq!(context.hit_map(), &first);
    lay_out(ops_of(&tree), 120, &mut context);
    assert_eq!(context.hit_map(), &first);
}

#[test]
fn a_pass_begins_from_the_origin() {
    let mut context = fresh(1);
    lay_out(vec![run("one", "p", 1), LayoutOp::LineBreak], 800, &mut context);
    assert_eq!(context.indices(), (12, 28));
    assert_eq!(context.hit_map().len(), 1);
    let pass = LayoutPass::new(Vec::new(), 800, &mut context);
    assert!(pass.is_complete());
    assert_eq!(context.indices(), (0, 0));
    assert!(context.hit_map().is_empty());
}

#[test]
fn hidden_text_places_nothing() {
    for tag in ["script", "style", "head", "title", "meta", "link", "img", "br"] {
        let mut context = fresh(1);
        let tree = element(tag, vec![], vec![text("not to be seen")]);
        let mut ops = Vec::new();
        render(1, &tree.children[0], tag, &mut ops);
        let backend = lay_out(ops, 800, &mut context);
        assert!(context.hit_map().is_empty(), "{}", tag);
        assert!(backend.drawn.is_empty(), "{}", tag);
        let expected_y = if tag == "br" { 12 } else { 0 };
        assert_eq!(context.indices(), (0, expected_y), "{}", tag);
        let expected_titles: Vec<String> =
            if tag == "title" { vec!["not to be seen".to_string()] } else { vec![] };
        assert_eq!(backend.titles, expected_titles, "{}", tag);
    }
}

#[test]
fn a_line_break_moves_down_by_one_line() {
    let mut context = fresh(3);
    let mut pass = LayoutPass::new(vec![LayoutOp::LineBreak, LayoutOp::LineBreak], 800, &mut context);
    assert_eq!(pass.step(&mut context, Event::Resume), Action::Continue);
    assert_eq!(context.indices(), (0, 36));
    assert_eq!(pass.step(&mut context, Event::Resume), Action::Continue);
    assert_eq!(context.indices(), (0, 72));
    assert!(context.hit_map().is_empty());
    assert_eq!(pass.step(&mut context, Event::Resume), Action::Finished);
}

#[test]
fn the_title_is_handed_to_the_driver() {
    let mut context = fresh(1);
    let mut pass =
        LayoutPass::new(vec![LayoutOp::Title { text: "  My page\n".to_string() }], 800, &mut context);
    assert_eq!(
        pass.step(&mut context, Event::Resume),
        Action::SetTitle { title: "  My page\n".to_string() }
    );
    assert_eq!(pass.step(&mut context, Event::Resume), Action::Finished);
    assert!(context.hit_map().is_empty());
    assert_eq!(context.indices(), (0, 0));
}

#[test]
fn a_local_image_is_read_and_placed() {
    let mut context = fresh(2);
    context.scroll(0, -1);
    let mut pass = LayoutPass::new(vec![image("pictures/cat.png", 3), run("x", "p", 1)], 800, &mut context);
    assert_eq!(
        pass.step(&mut context, Event::Resume),
        Action::LoadImageFile { path: "pictures/cat.png".to_string() }
    );
    assert_eq!(
        pass.step(&mut context, Event::ImageLoaded { width: 30, height: 40 }),
        Action::DrawImage { region: region(72, -12, 60, 80, ClickAction::Image) }
    );
    assert_eq!(context.hit_map(), &vec![region(72, -12, 60, 80, ClickAction::Image)]);
    assert_eq!(context.indices(), (72, 80));
    assert_eq!(
        pass.step(&mut context, Event::Resume),
        Action::MeasureText { text: "x ".to_string(), style: NORMAL }
    );
    assert_eq!(
        pass.step(&mut context, Event::TextMeasured { width: 50, height: 50 }),
        Action::DrawText {
            text: "x ".to_string(),
            style: NORMAL,
            color: BLACK,
            region: region(24, 68, 32, 32, ClickAction::Text),
        }
    );
}

#[test]
fn a_remote_image_is_fetched_once() {
    let mut context = fresh(1);
    let url = "http://example.com/cat.png";
    let ops = || vec![image(url, 1), image(url, 1)];
    let first = lay_out(ops(), 800, &mut context);
    assert_eq!(first.fetched, vec![url]);
    assert_eq!(first.decoded, vec![url, url]);
    assert_eq!(context.cached_image(url), Some(&url.as_bytes().to_vec()));
    let regions = context.hit_map().clone();
    assert_eq!(
        regions,
        vec![region(12, 0, 30, 40, ClickAction::Image), region(12, 40, 30, 40, ClickAction::Image)]
    );
    let second = lay_out(ops(), 800, &mut context);
    assert_eq!(second.fetched, Vec::<String>::new());
    assert_eq!(second.decoded, vec![url, url]);
    assert_eq!(context.hit_map(), &regions);
    assert_eq!(context.cached_image(url), Some(&url.as_bytes().to_vec()));
}

#[test]
fn every_step_of_a_fetch() {
    let mut context = fresh(1);
    let url = "https://example.com/cat.png";
    let mut pass = LayoutPass::new(vec![image(url, 0)], 800, &mut context);
    assert_eq!(pass.step(&mut context, Event::Resume), Action::FetchImage { url: url.to_string() });
    assert_eq!(context.cached_image(url), None);
    assert_eq!(
        pass.step(&mut context, Event::ImageFetched { bytes: vec![1, 2, 3] }),
        Action::DecodeImage { url: url.to_string() }
    );
    assert_eq!(context.cached_image(url), Some(&vec![1, 2, 3]));
    assert_eq!(
        pass.step(&mut context, Event::ImageLoaded { width: 5, height: 7 }),
        Action::DrawImage { region: region(0, 0, 5, 7, ClickAction::Image) }
    );
    assert_eq!(pass.step(&mut context, Event::Resume), Action::Finished);
}

#[test]
fn an_image_that_cannot_be_loaded_takes_no_room() {
    let mut context = fresh(1);
    let backend = lay_out(
        vec![
            image("missing.png", 2),
            image("http://example.com/unreachable.png", 2),
            image("http://example.com/missing.png", 2),
            LayoutOp::Image { src: None, depth: 2 },
            run("after", "p", 2),
        ],
        800,
        &mut context,
    );
    assert_eq!(backend.read, vec!["missing.png"]);
    assert_eq!(
        backend.fetched,
        vec!["http://example.com/unreachable.png", "http://example.com/missing.png"]
    );
    assert_eq!(backend.decoded, vec!["http://example.com/missing.png"]);
    assert_eq!(backend.drawn, vec!["after "]);
    assert_eq!(context.cached_image("http://example.com/unreachable.png"), None);
    let empty = region(24, 0, 0, 0, ClickAction::Image);
    assert_eq!(
        context.hit_map(),
        &vec![empty, empty, empty, empty, region(24, 0, 39, 16, ClickAction::Text)]
    );
}

#[test]
fn an_address_that_is_no_uri_is_not_fetched() {
    for src in ["http://", "https://", "http://exa mple.com/a.png", "http://[::1/a.png"] {
        let mut context = fresh(1);
        let backend = lay_out(vec![image(src, 1)], 800, &mut context);
        assert_eq!(backend.fetched, Vec::<String>::new(), "{}", src);
        assert_eq!(backend.read, Vec::<String>::new(), "{}", src);
        assert_eq!(context.hit_map(), &vec![region(12, 0, 0, 0, ClickAction::Image)], "{}", src);
    }
    for src in ["http://example.com/a.png", "https://example.com:8080/a.png?x=1", "http://[::1]/a"] {
        let mut context = fresh(1);
        let backend = lay_out(vec![image(src, 1)], 800, &mut context);
        assert_eq!(backend.fetched, vec![src], "{}", src);
    }
    for src in ["HTTP://example.com/a.png", "ftp://example.com/a.png", "a b.png", ""] {
        let mut context = fresh(1);
        let backend = lay_out(vec![image(src, 1)], 800, &mut context);
        assert_eq!(backend.fetched, Vec::<String>::new(), "{}", src);
        assert_eq!(backend.read, vec![src], "{}", src);
    }
}

#[test]
fn a_font_failure_ends_the_pass() {
    let mut context = fresh(1);
    let mut pass = LayoutPass::new(vec![run("one two", "p", 1), run("three", "p", 1)], 800, &mut context);
    assert!(matches!(pass.step(&mut context, Event::Resume), Action::MeasureText { .. }));
    assert_eq!(
        pass.step(&mut context, Event::TextFailed),
        Action::Failed { error: LayoutError::FontFailure }
    );
    assert_eq!(pass.error(), Some(LayoutError::FontFailure));
    assert!(!pass.is_complete());
    assert!(context.hit_map().is_empty());
    assert_eq!(context.active_style(), NORMAL);
    assert_eq!(
        pass.step(&mut context, Event::Resume),
        Action::Failed { error: LayoutError::FontFailure }
    );
    assert_eq!(
        pass.step(&mut context, Event::TextMeasured { width: 1, height: 1 }),
        Action::Failed { error: LayoutError::FontFailure }
    );
}

#[test]
fn an_unexpected_event_ends_the_pass() {
    let mut context = fresh(1);
    let mut pass = LayoutPass::new(vec![run("one", "p", 1)], 800, &mut context);
    assert_eq!(
        pass.step(&mut context, Event::TextMeasured { width: 1, height: 1 }),
        Action::Failed { error: LayoutError::UnexpectedEvent }
    );
    assert_eq!(pass.error(), Some(LayoutError::UnexpectedEvent));

    let mut pass = LayoutPass::new(vec![run("one", "p", 1)], 800, &mut context);
    assert!(matches!(pass.step(&mut context, Event::Resume), Action::MeasureText { .. }));
    assert_eq!(
        pass.step(&mut context, Event::Resume),
        Action::Failed { error: LayoutError::UnexpectedEvent }
    );

    let mut pass = LayoutPass::new(vec![image("a.png", 1)], 800, &mut context);
    assert!(matches!(pass.step(&mut context, Event::Resume), Action::LoadImageFile { .. }));
    assert_eq!(
        pass.step(&mut context, Event::ImageFetched { bytes: vec![] }),
        Action::Failed { error: LayoutError::UnexpectedEvent }
    );

    let mut pass = LayoutPass::new(vec![image("http://example.com/a.png", 1)], 800, &mut context);
    assert!(matches!(pass.step(&mut context, Event::Resume), Action::FetchImage { .. }));
    assert_eq!(
        pass.step(&mut context, Event::ImageLoaded { width: 1, height: 1 }),
        Action::Failed { error: LayoutError::UnexpectedEvent }
    );

    let mut pass = LayoutPass::new(Vec::new(), 800, &mut context);
    assert_eq!(
        pass.step(&mut context, Event::ImageLoadFailed),
        Action::Failed { error: LayoutError::UnexpectedEvent }
    );
}

#[test]
fn leaving_the_range_ends_the_pass() {
    // The indent does not fit.
    let mut context = fresh(1);
    let mut pass = LayoutPass::new(vec![run("deep", "p", 357913942)], 800, &mut context);
    assert!(matches!(pass.step(&mut context, Event::Resume), Action::MeasureText { .. }));
    assert_eq!(
        pass.step(&mut context, Event::TextMeasured { width: 80, height: 50 }),
        Action::Failed { error: LayoutError::Overflow }
    );
    assert!(context.hit_map().is_empty());
    assert_eq!(context.indices(), (0, 0));

    // It just fits one level higher.
    let mut pass = LayoutPass::new(vec![run("deep", "p", 357913941)], 800, &mut context);
    assert!(matches!(pass.step(&mut context, Event::Resume), Action::MeasureText { .. }));
    assert!(matches!(
        pass.step(&mut context, Event::TextMeasured { width: 80, height: 50 }),
        Action::DrawText { .. }
    ));
    assert_eq!(context.indices(), (4294967292, 16));

    // The font size does not fit.
    let mut context = fresh(u32::MAX);
    let mut pass = LayoutPass::new(vec![run("big", "p", 0)], 800, &mut context);
    assert!(matches!(pass.step(&mut context, Event::Resume), Action::MeasureText { .. }));
    assert_eq!(
        pass.step(&mut context, Event::TextMeasured { width: 80, height: 50 }),
        Action::Failed { error: LayoutError::Overflow }
    );

    // The line height does not fit.
    let mut pass = LayoutPass::new(vec![LayoutOp::LineBreak], 800, &mut context);
    assert_eq!(
        pass.step(&mut context, Event::Resume),
        Action::Failed { error: LayoutError::Overflow }
    );
    assert_eq!(pass.error(), Some(LayoutError::Overflow));

    // The image does not fit.
    let mut context = fresh(2);
    let mut pass = LayoutPass::new(vec![image("a.png", 0)], 800, &mut context);
    assert!(matches!(pass.step(&mut context, Event::Resume), Action::LoadImageFile { .. }));
    assert_eq!(
        pass.step(&mut context, Event::ImageLoaded { width: 1, height: 1 << 31 }),
        Action::Failed { error: LayoutError::Overflow }
    );

    // The cursor does not fit below two tall images.
    let mut context = fresh(1);
    let mut pass = LayoutPass::new(vec![image("a.png", 0), image("b.png", 0)], 800, &mut context);
    assert!(matches!(pass.step(&mut context, Event::Resume), Action::LoadImageFile { .. }));
    assert!(matches!(
        pass.step(&mut context, Event::ImageLoaded { width: 1, height: u32::MAX }),
        Action::DrawImage { .. }
    ));
    assert!(matches!(pass.step(&mut context, Event::Resume), Action::LoadImageFile { .. }));
    assert_eq!(
        pass.step(&mut context, Event::ImageLoaded { width: 1, height: 1 }),
        Action::Failed { error: LayoutError::Overflow }
    );
    assert_eq!(context.hit_map().len(), 1);
}

#[test]
fn a_run_without_words_is_passed_over() {
    let mut context = fresh(1);
    let mut pass = LayoutPass::new(vec![run("  \n ", "p", 1), run("x", "p", 1)], 800, &mut context);
    assert_eq!(pass.step(&mut context, Event::Resume), Action::Continue);
    assert!(matches!(pass.step(&mut context, Event::Resume), Action::MeasureText { .. }));
}

#[test]
fn a_click_goes_to_the_region_below_it() {
    let mut context = fresh(2);
    lay_out(ops_of(&hi_world()), 800, &mut context);
    // Regions: (96, 0, 77, 64) and (96, 64, 77, 32), in backend pixels.
    assert_eq!(context.click(50, 10), Some(0));
    assert_eq!(context.click(50, 40), Some(1));
    assert_eq!(context.click(48, 32), Some(0));
    assert_eq!(context.click(47, 10), None);
    assert_eq!(context.click(200, 200), None);
    assert_eq!(context.hit_map()[0].action, ClickAction::Text);
}

#[test]
fn an_image_stands_at_the_indent_of_its_own_depth() {
    // Text four levels deep is placed first; the image two levels deep does
    // not take over the indent of that text.
    let mut context = fresh(1);
    lay_out(vec![run("deep", "p", 4), image("a.png", 2), run("deeper", "p", 6)], 800, &mut context);
    assert_eq!(
        context.hit_map(),
        &vec![
            region(48, 0, 32, 16, ClickAction::Text),
            region(24, 16, 30, 40, ClickAction::Image),
            region(72, 56, 45, 16, ClickAction::Text),
        ]
    );
    assert_eq!(context.indices(), (72, 72));
}

#[test]
fn a_pass_ends_within_its_count_of_steps() {
    // Three words take at most 2 * 3 + 3 steps, an image 4, a title and a
    // line break 1 each; one more step tells that the pass is finished.
    let ops = vec![
        LayoutOp::Title { text: "t".to_string() },
        run("one two three", "p", 1),
        LayoutOp::LineBreak,
        image("http://example.com/a.png", 1),
    ];
    for window_width in [0, 1, 800] {
        let mut context = fresh(1);
        let mut pass = LayoutPass::new(ops_clone(&ops), window_width, &mut context);
        let mut backend = Backend::new();
        assert_eq!(backend.drive(&mut pass, &mut context), Action::Finished);
        assert!(backend.actions <= 1 + 9 + 1 + 4 + 1, "{}", backend.actions);
    }
}

fn ops_clone(ops: &Vec<LayoutOp>) -> Vec<LayoutOp> {
    ops.iter()
        .map(|op| match op {
            LayoutOp::Title { text } => LayoutOp::Title { text: text.clone() },
            LayoutOp::LineBreak => LayoutOp::LineBreak,
            LayoutOp::Text { text, tag, depth } => {
                LayoutOp::Text { text: text.clone(), tag: tag.clone(), depth: *depth }
            }
            LayoutOp::Image { src, depth } => LayoutOp::Image { src: src.clone(), depth: *depth },
        })
        .collect()
}

#[test]
fn regions_run_down_the_page() {
    let mut context = fresh(2);
    context.scroll(0, -7);
    lay_out(
        vec![
            run("aaaa bbbb cccc dddd eeee ffff gggg", "h2", 1),
            image("a.png", 1),
            LayoutOp::LineBreak,
            image("missing.png", 1),
            run("tail", "a", 3),
        ],
        60,
        &mut context,
    );
    let regions = context.hit_map();
    assert!(regions.len() >= 5);
    for pair in regions.windows(2) {
        assert!(pair[0].y + pair[0].height as i64 <= pair[1].y);
    }
    let last = regions[regions.len() - 1];
    assert_eq!(last.y + last.height as i64, context.indices().1 as i64 + context.viewport().1 as i64);
}
