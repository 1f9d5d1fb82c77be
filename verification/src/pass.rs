//! A layout pass as a state machine.
//!
//! A pass places, one after another, the operations that the tree walk wrote
//! down. It cannot measure text, fetch or decode an image, or draw: for each
//! of these it returns an [`Action`] to its driver, and takes the outcome
//! back as the [`Event`] of the next step.

use vstd::prelude::*;
use crate::colorscheme::Color;
use crate::context::{ContextView, RendererContext};
use crate::hitmap::{ClickAction, HitRegion};
use crate::image::{route_image, route_of, ImageRoute};
use crate::metrics::{rescale_width, spec_rescale_width, spec_wrap_width, wrap_width};
use crate::renderer::{op_views, LayoutOp, LayoutOpView};
use crate::style::{layout_style, style_of, FontStyle};
use crate::text::words_of;
use crate::wrap::{line_text, WordWrap, WordWrapView};

verus! {

/// Why a pass has come to an end before its time.
#[derive(Clone, Copy, Debug, PartialEq, Eq, Structural)]
pub enum LayoutError {
    /// The font could not measure or render a line.
    FontFailure,
    /// The cursor or a size has left the range of a `u32`.
    Overflow,
    /// The driver has handed in an event that the pass was not waiting for.
    UnexpectedEvent,
}

/// What the driver tells a pass.
#[derive(Debug, PartialEq, Eq)]
pub enum Event {
    /// Go on: the last action needed no answer, or the pass begins.
    Resume,
    /// The font has measured the line: its width and height at the size the
    /// font is loaded in.
    TextMeasured { width: u32, height: u32 },
    /// The font could not measure the line.
    TextFailed,
    /// The image has been fetched.
    ImageFetched { bytes: Vec<u8> },
    /// The image could not be fetched.
    ImageFetchFailed,
    /// The image has been decoded or read: its size in logical units.
    ImageLoaded { width: u32, height: u32 },
    /// The image could not be decoded or read.
    ImageLoadFailed,
}

/// What an [`Event`] stands for.
pub enum EventView {
    Resume,
    TextMeasured { width: u32, height: u32 },
    TextFailed,
    ImageFetched { bytes: Seq<u8> },
    ImageFetchFailed,
    ImageLoaded { width: u32, height: u32 },
    ImageLoadFailed,
}

impl View for Event {
    type V = EventView;

    open spec fn view(&self) -> EventView {
        match *self {
            Event::Resume => EventView::Resume,
            Event::TextMeasured { width, height } => EventView::TextMeasured { width, height },
            Event::TextFailed => EventView::TextFailed,
            Event::ImageFetched { bytes } => EventView::ImageFetched { bytes: bytes@ },
            Event::ImageFetchFailed => EventView::ImageFetchFailed,
            Event::ImageLoaded { width, height } => EventView::ImageLoaded { width, height },
            Event::ImageLoadFailed => EventView::ImageLoadFailed,
        }
    }
}

/// What a pass asks of its driver.
#[derive(Debug, PartialEq, Eq)]
pub enum Action {
    /// Nothing; step again with [`Event::Resume`].
    Continue,
    /// Make `title` the title of the window; then resume.
    SetTitle { title: String },
    /// Measure `text` in the given style, and answer with
    /// [`Event::TextMeasured`] or [`Event::TextFailed`].
    MeasureText { text: String, style: FontStyle },
    /// Draw `text` in the given style and colour into `region`; then resume.
    DrawText { text: String, style: FontStyle, color: Color, region: HitRegion },
    /// Fetch the image at `url`, and answer with [`Event::ImageFetched`] or
    /// [`Event::ImageFetchFailed`].
    FetchImage { url: String },
    /// Decode the bytes that the cache holds for `url`, and answer with
    /// [`Event::ImageLoaded`] or [`Event::ImageLoadFailed`].
    DecodeImage { url: String },
    /// Read the image in the file `path`, and answer with
    /// [`Event::ImageLoaded`] or [`Event::ImageLoadFailed`].
    LoadImageFile { path: String },
    /// Draw the image just loaded into `region`; then resume.
    DrawImage { region: HitRegion },
    /// The pass is complete.
    Finished,
    /// The pass has failed and will not go on.
    Failed { error: LayoutError },
}

/// What an [`Action`] stands for.
pub enum ActionView {
    Continue,
    SetTitle { title: Seq<char> },
    MeasureText { text: Seq<char>, style: FontStyle },
    DrawText { text: Seq<char>, style: FontStyle, color: Color, region: HitRegion },
    FetchImage { url: Seq<char> },
    DecodeImage { url: Seq<char> },
    LoadImageFile { path: Seq<char> },
    DrawImage { region: HitRegion },
    Finished,
    Failed { error: LayoutError },
}

impl View for Action {
    type V = ActionView;

    open spec fn view(&self) -> ActionView {
        match *self {
            Action::Continue => ActionView::Continue,
            Action::SetTitle { title } => ActionView::SetTitle { title: title@ },
            Action::MeasureText { text, style } => ActionView::MeasureText { text: text@, style },
            Action::DrawText { text, style, color, region } => ActionView::DrawText {
                text: text@,
                style,
                color,
                region,
            },
            Action::FetchImage { url } => ActionView::FetchImage { url: url@ },
            Action::DecodeImage { url } => ActionView::DecodeImage { url: url@ },
            Action::LoadImageFile { path } => ActionView::LoadImageFile { path: path@ },
            Action::DrawImage { region } => ActionView::DrawImage { region },
            Action::Finished => ActionView::Finished,
            Action::Failed { error } => ActionView::Failed { error },
        }
    }
}

/// A run of text that is being placed line by line: the lines still to
/// come, and how and where they are drawn.
pub struct TextRunView {
    pub wrap: WordWrapView,
    pub style: FontStyle,
    pub color: Color,
    pub depth: nat,
}

/// Where a pass stands within the operation at hand.
pub enum PhaseView {
    /// Between operations.
    Ready,
    /// Between two lines of a run of text.
    Lines { run: TextRunView },
    /// Waiting for the size of `line`, which `run` has handed out already.
    AwaitText { run: TextRunView, line: Seq<char> },
    /// Waiting for the bytes of the image at `url`.
    AwaitFetch { url: Seq<char>, depth: nat },
    /// Waiting for the size of an image.
    AwaitImage { depth: nat },
    /// Failed, for good.
    Failed { error: LayoutError },
}

/// What a [`LayoutPass`] stands for.
pub struct PassView {
    /// What there is to place, in document order.
    pub ops: Seq<LayoutOpView>,
    /// The index of the operation at hand.
    pub next: int,
    pub phase: PhaseView,
    /// The width of the window in logical units.
    pub window_width: u32,
}

/// What a step comes to: the pass and the context after it, and what the
/// driver is asked to do.
pub struct Outcome {
    pub pass: PassView,
    pub context: ContextView,
    pub action: ActionView,
}

impl PassView {
    /// The pass at its start.
    pub open spec fn initial(ops: Seq<LayoutOpView>, window_width: u32) -> PassView {
        PassView { ops, next: 0, phase: PhaseView::Ready, window_width }
    }

    /// The pass with the operation at hand behind it.
    pub open spec fn moved_on(self) -> PassView {
        PassView { next: self.next + 1, phase: PhaseView::Ready, ..self }
    }

    /// The pass in another phase of the operation at hand.
    pub open spec fn in_phase(self, phase: PhaseView) -> PassView {
        PassView { phase, ..self }
    }

    /// Whether the pass has placed everything.
    pub open spec fn is_complete(self) -> bool {
        self.phase is Ready && self.next >= self.ops.len()
    }
}

/// A step that fails: the pass is failed for good, and nothing is placed.
pub open spec fn failing(pass: PassView, context: ContextView, error: LayoutError) -> Outcome {
    Outcome {
        pass: pass.in_phase(PhaseView::Failed { error }),
        context: context.styled(FontStyle::normal()),
        action: ActionView::Failed { error },
    }
}

/// A step that ends the operation at hand without any work for the driver.
pub open spec fn skipping(pass: PassView, context: ContextView) -> Outcome {
    Outcome {
        pass: pass.moved_on(),
        context: context.styled(FontStyle::normal()),
        action: ActionView::Continue,
    }
}

/// The run of text that begins where `text` stands directly below `tag`:
/// its words are wrapped at the font size of the tag's style to twice the
/// width of the window.
pub open spec fn text_run(
    window_width: u32,
    context: ContextView,
    text: Seq<char>,
    tag: Seq<char>,
    depth: nat,
) -> TextRunView {
    let style = style_of(tag, context.color_scheme);
    TextRunView {
        wrap: WordWrapView {
            words: words_of(text),
            next: 0,
            font_size: style.spec_font_size(context.scaling_factor) as nat,
            width: spec_wrap_width(window_width, context.scaling_factor),
        },
        style: style.spec_font_style(),
        color: style.spec_text_color(context.color_scheme),
        depth,
    }
}

/// A step that hands out the next line of a run: the font goes into the
/// style of the run, and the driver is asked to measure the line.
pub open spec fn measuring(pass: PassView, context: ContextView, run: TextRunView) -> Outcome {
    let line = line_text(run.wrap.line());
    Outcome {
        pass: pass.in_phase(
            PhaseView::AwaitText { run: TextRunView { wrap: run.wrap.advanced(), ..run }, line },
        ),
        context: context.styled(run.style),
        action: ActionView::MeasureText { text: line, style: run.style },
    }
}

/// A step that goes on with a run: to its next line, or past it where no
/// line is left.
pub open spec fn continuing(pass: PassView, context: ContextView, run: TextRunView) -> Outcome {
    if run.wrap.is_finished() {
        skipping(pass, context)
    } else {
        measuring(pass, context, run)
    }
}

/// A step that places a line which the font has measured as `width` by
/// `height`. The line is as high as the font size of its run, and as wide
/// as its measured width rescaled to that size. Its region is appended and
/// the cursor moves below it; the driver is asked to draw it there.
pub open spec fn placing_line(
    pass: PassView,
    context: ContextView,
    run: TextRunView,
    line: Seq<char>,
    width: u32,
    height: u32,
) -> Outcome {
    let size = run.wrap.font_size;
    if size > u32::MAX || !context.can_place(run.depth, size as int) {
        failing(pass, context, LayoutError::Overflow)
    } else {
        let w = spec_rescale_width(width, height, size) as u32;
        let h = size as u32;
        Outcome {
            pass: if run.wrap.is_finished() {
                pass.moved_on()
            } else {
                pass.in_phase(PhaseView::Lines { run })
            },
            context: context.styled(run.style).placed(run.depth, w, h, ClickAction::Text),
            action: ActionView::DrawText {
                text: line,
                style: run.style,
                color: run.color,
                region: context.region_at(run.depth, w, h, ClickAction::Text),
            },
        }
    }
}

/// A step that places an image of the given size in logical units, or an
/// image that could not be loaded, which takes no room. Its region is
/// appended and the cursor moves below it; where there is an image, the
/// driver is asked to draw it.
pub open spec fn placing_image(
    pass: PassView,
    context: ContextView,
    depth: nat,
    size: Option<(u32, u32)>,
) -> Outcome {
    let (w, h) = match size {
        Some((width, height)) => (
            width * context.scaling_factor,
            height * context.scaling_factor,
        ),
        None => (0, 0),
    };
    if w > u32::MAX || h > u32::MAX || !context.can_place(depth, h) {
        failing(pass, context, LayoutError::Overflow)
    } else {
        let region = context.region_at(depth, w as u32, h as u32, ClickAction::Image);
        Outcome {
            pass: pass.moved_on(),
            context: context.styled(FontStyle::normal()).placed(
                depth,
                w as u32,
                h as u32,
                ClickAction::Image,
            ),
            action: if size is Some {
                ActionView::DrawImage { region }
            } else {
                ActionView::Continue
            },
        }
    }
}

/// A step that waits for the size of an image.
pub open spec fn loading(
    pass: PassView,
    context: ContextView,
    depth: nat,
    action: ActionView,
) -> Outcome {
    Outcome {
        pass: pass.in_phase(PhaseView::AwaitImage { depth }),
        context: context.styled(FontStyle::normal()),
        action,
    }
}

/// A step that begins an image. An element without a source, and one whose
/// source is no valid address, count as images that could not be loaded.
pub open spec fn starting_image(
    pass: PassView,
    context: ContextView,
    src: Option<Seq<char>>,
    depth: nat,
) -> Outcome {
    match src {
        None => placing_image(pass, context, depth, None),
        Some(s) => match route_of(s, context.images.contains_key(s)) {
            ImageRoute::File => loading(pass, context, depth, ActionView::LoadImageFile { path: s }),
            ImageRoute::Cached => loading(pass, context, depth, ActionView::DecodeImage { url: s }),
            ImageRoute::Fetch => Outcome {
                pass: pass.in_phase(PhaseView::AwaitFetch { url: s, depth }),
                context: context.styled(FontStyle::normal()),
                action: ActionView::FetchImage { url: s },
            },
            ImageRoute::Broken => placing_image(pass, context, depth, None),
        },
    }
}

/// A step that begins the operation `op`.
pub open spec fn starting(pass: PassView, context: ContextView, op: LayoutOpView) -> Outcome {
    match op {
        LayoutOpView::Title { text } => Outcome {
            pass: pass.moved_on(),
            context: context.styled(FontStyle::normal()),
            action: ActionView::SetTitle { title: text },
        },
        LayoutOpView::LineBreak => if context.indices.1 + context.line_height() <= u32::MAX {
            skipping(pass, context.broken())
        } else {
            failing(pass, context, LayoutError::Overflow)
        },
        LayoutOpView::Text { text, tag, depth } => continuing(
            pass,
            context,
            text_run(pass.window_width, context, text, tag, depth),
        ),
        LayoutOpView::Image { src, depth } => starting_image(pass, context, src, depth),
    }
}

/// What a step comes to, for a pass and a context in any state and for any
/// event. An event that the pass is not waiting for makes it fail; a failed
/// pass stays failed, and a complete one complete.
pub open spec fn step_spec(pass: PassView, context: ContextView, event: EventView) -> Outcome {
    match pass.phase {
        PhaseView::Failed { error } => failing(pass, context, error),
        PhaseView::Ready => if !(event is Resume) {
            failing(pass, context, LayoutError::UnexpectedEvent)
        } else if 0 <= pass.next < pass.ops.len() {
            starting(pass, context, pass.ops[pass.next])
        } else {
            Outcome {
                pass,
                context: context.styled(FontStyle::normal()),
                action: ActionView::Finished,
            }
        },
        PhaseView::Lines { run } => if event is Resume {
            continuing(pass, context, run)
        } else {
            failing(pass, context, LayoutError::UnexpectedEvent)
        },
        PhaseView::AwaitText { run, line } => match event {
            EventView::TextMeasured { width, height } => placing_line(
                pass,
                context,
                run,
                line,
                width,
                height,
            ),
            EventView::TextFailed => failing(pass, context, LayoutError::FontFailure),
            _ => failing(pass, context, LayoutError::UnexpectedEvent),
        },
        PhaseView::AwaitFetch { url, depth } => match event {
            EventView::ImageFetched { bytes } => loading(
                pass,
                context.caching(url, bytes),
                depth,
                ActionView::DecodeImage { url },
            ),
            EventView::ImageFetchFailed => placing_image(pass, context, depth, None),
            _ => failing(pass, context, LayoutError::UnexpectedEvent),
        },
        PhaseView::AwaitImage { depth } => match event {
            EventView::ImageLoaded { width, height } => placing_image(
                pass,
                context,
                depth,
                Some((width, height)),
            ),
            EventView::ImageLoadFailed => placing_image(pass, context, depth, None),
            _ => failing(pass, context, LayoutError::UnexpectedEvent),
        },
    }
}


/// A run of text that is being placed line by line.
struct TextRun {
    wrap: WordWrap,
    style: FontStyle,
    color: Color,
    depth: usize,
}

impl View for TextRun {
    type V = TextRunView;

    closed spec fn view(&self) -> TextRunView {
        TextRunView {
            wrap: self.wrap@,
            style: self.style,
            color: self.color,
            depth: self.depth as nat,
        }
    }
}

/// Where a pass stands within the operation at hand.
enum Phase {
    Ready,
    Lines { run: TextRun },
    AwaitText { run: TextRun, line: String },
    AwaitFetch { url: String, depth: usize },
    AwaitImage { depth: usize },
    Failed { error: LayoutError },
}

impl View for Phase {
    type V = PhaseView;

    closed spec fn view(&self) -> PhaseView {
        match *self {
            Phase::Ready => PhaseView::Ready,
            Phase::Lines { run } => PhaseView::Lines { run: run@ },
            Phase::AwaitText { run, line } => PhaseView::AwaitText { run: run@, line: line@ },
            Phase::AwaitFetch { url, depth } => PhaseView::AwaitFetch {
                url: url@,
                depth: depth as nat,
            },
            Phase::AwaitImage { depth } => PhaseView::AwaitImage { depth: depth as nat },
            Phase::Failed { error } => PhaseView::Failed { error },
        }
    }
}

/// One layout pass over a document.
pub struct LayoutPass {
    ops: Vec<LayoutOp>,
    next: usize,
    phase: Phase,
    window_width: u32,
}

impl View for LayoutPass {
    type V = PassView;

    closed spec fn view(&self) -> PassView {
        PassView {
            ops: op_views(self.ops@),
            next: self.next as int,
            phase: self.phase@,
            window_width: self.window_width,
        }
    }
}

/// The font style of ordinary text.
fn normal_style() -> (style: FontStyle)
    ensures
        style == FontStyle::normal(),
{
    FontStyle { bold: false, underline: false }
}

/// Begins a run of text.
fn begin_run(text: &str, tag: &str, depth: usize, window_width: u32, context: &RendererContext) -> (run:
    TextRun)
    ensures
        run@ == text_run(window_width, context@, text@, tag@, depth as nat),
{
    let scheme = context.color_scheme();
    let style = layout_style(tag, &scheme);
    let font_size = style.font_size(context.scaling_factor());
    let width = wrap_width(window_width, context.scaling_factor());
    TextRun {
        wrap: WordWrap::new(text, font_size, width),
        style: style.font_style(),
        color: style.text_color(&scheme),
        depth,
    }
}

impl LayoutPass {
    #[verifier::type_invariant]
    spec fn inv(self) -> bool {
        &&& self.next <= self.ops.len()
        &&& !(self.phase is Ready || self.phase is Failed) ==> self.next < self.ops.len()
    }

    /// Begins a pass over the operations that the tree walk has written
    /// down, for a window of the given width in logical units. The context
    /// is made ready: its cursor goes to the origin and its table of regions
    /// is emptied, while scroll offset, scaling factor, colours and fetched
    /// images stay.
    pub fn new(ops: Vec<LayoutOp>, window_width: u32, context: &mut RendererContext) -> (pass:
        LayoutPass)
        ensures
            pass@ == PassView::initial(op_views(ops@), window_width),
            in_order(pass@),
            final(context)@ == old(context)@.begun(),
    {
        context.begin_pass();
        LayoutPass { ops, next: 0, phase: Phase::Ready, window_width }
    }

    /// Tells whether the pass has placed everything.
    pub fn is_complete(&self) -> (complete: bool)
        ensures
            complete == self@.is_complete(),
    {
        match self.phase {
            Phase::Ready => self.next >= self.ops.len(),
            _ => false,
        }
    }

    /// The error that the pass has failed with, if it has failed.
    pub fn error(&self) -> (error: Option<LayoutError>)
        ensures
            error == match self@.phase {
                PhaseView::Failed { error } => Some(error),
                _ => None,
            },
    {
        match self.phase {
            Phase::Failed { error } => Some(error),
            _ => None,
        }
    }

    /// Fails the pass.
    fn fail(&mut self, context: &mut RendererContext, error: LayoutError) -> (action: Action)
        ensures
            final(self)@ == failing(old(self)@, old(context)@, error).pass,
            final(context)@ == failing(old(self)@, old(context)@, error).context,
            action@ == failing(old(self)@, old(context)@, error).action,
    {
        proof {
            use_type_invariant(&*self);
        }
        self.phase = Phase::Failed { error };
        context.set_active_style(normal_style());
        Action::Failed { error }
    }

    /// Hands out the next line of a run, or goes past the run where no line
    /// is left.
    fn go_on(&mut self, context: &mut RendererContext, run: TextRun) -> (action: Action)
        requires
            old(self)@.next < old(self)@.ops.len(),
        ensures
            final(self)@ == continuing(old(self)@, old(context)@, run@).pass,
            final(context)@ == continuing(old(self)@, old(context)@, run@).context,
            action@ == continuing(old(self)@, old(context)@, run@).action,
    {
        proof {
            use_type_invariant(&*self);
        }
        let mut run = run;
        match run.wrap.next_line() {
            Some(line) => {
                context.set_active_style(run.style);
                let action = Action::MeasureText { text: line.clone(), style: run.style };
                self.phase = Phase::AwaitText { run, line };
                action
            },
            None => {
                context.set_active_style(normal_style());
                self.phase = Phase::Ready;
                self.next = self.next + 1;
                Action::Continue
            },
        }
    }

    /// Begins the operation at hand.
    fn start(&mut self, context: &mut RendererContext) -> (action: Action)
        requires
            old(self)@.phase is Ready,
            old(self)@.next < old(self)@.ops.len(),
        ensures
            ({
                let out = starting(old(self)@, old(context)@, old(self)@.ops[old(self)@.next]);
                &&& final(self)@ == out.pass
                &&& final(context)@ == out.context
                &&& action@ == out.action
            }),
    {
        proof {
            use_type_invariant(&*self);
        }
        match &self.ops[self.next] {
            LayoutOp::Title { text } => {
                let title = text.clone();
                context.set_active_style(normal_style());
                self.next = self.next + 1;
                Action::SetTitle { title }
            },
            LayoutOp::LineBreak => {
                if context.line_break() {
                    context.set_active_style(normal_style());
                    self.next = self.next + 1;
                    Action::Continue
                } else {
                    self.fail(context, LayoutError::Overflow)
                }
            },
            LayoutOp::Text { text, tag, depth } => {
                let run = begin_run(
                    text.as_str(),
                    tag.as_str(),
                    *depth,
                    self.window_width,
                    context,
                );
                self.go_on(context, run)
            },
            LayoutOp::Image { src, depth } => {
                let depth = *depth;
                match src {
                    None => self.finish_image(context, depth, None),
                    Some(s) => {
                        let cached = context.cached_image(s.as_str()).is_some();
                        match route_image(s.as_str(), cached) {
                            ImageRoute::File => {
                                let path = s.clone();
                                context.set_active_style(normal_style());
                                self.phase = Phase::AwaitImage { depth };
                                Action::LoadImageFile { path }
                            },
                            ImageRoute::Cached => {
                                let url = s.clone();
                                context.set_active_style(normal_style());
                                self.phase = Phase::AwaitImage { depth };
                                Action::DecodeImage { url }
                            },
                            ImageRoute::Fetch => {
                                let url = s.clone();
                                context.set_active_style(normal_style());
                                self.phase = Phase::AwaitFetch { url: url.clone(), depth };
                                Action::FetchImage { url }
                            },
                            ImageRoute::Broken => self.finish_image(context, depth, None),
                        }
                    },
                }
            },
        }
    }

    /// Places an image and goes past it.
    fn finish_image(
        &mut self,
        context: &mut RendererContext,
        depth: usize,
        size: Option<(u32, u32)>,
    ) -> (action: Action)
        requires
            old(self)@.next < old(self)@.ops.len(),
        ensures
            ({
                let out = placing_image(old(self)@, old(context)@, depth as nat, size);
                &&& final(self)@ == out.pass
                &&& final(context)@ == out.context
                &&& action@ == out.action
            }),
    {
        proof {
            use_type_invariant(&*self);
        }
        let factor = context.scaling_factor() as u64;
        let (w, h): (u64, u64) = match size {
            Some((width, height)) => {
                assert(width * factor <= u64::MAX && height * factor <= u64::MAX)
                    by (nonlinear_arith)
                    requires
                        width <= u32::MAX,
                        height <= u32::MAX,
                        factor <= u32::MAX,
                ;
                (width as u64 * factor, height as u64 * factor)
            },
            None => (0, 0),
        };
        if w > u32::MAX as u64 || h > u32::MAX as u64 {
            return self.fail(context, LayoutError::Overflow);
        }
        context.set_active_style(normal_style());
        match context.place(depth, w as u32, h as u32, ClickAction::Image) {
            Some(region) => {
                self.phase = Phase::Ready;
                self.next = self.next + 1;
                if size.is_some() {
                    Action::DrawImage { region }
                } else {
                    Action::Continue
                }
            },
            None => {
                self.fail(context, LayoutError::Overflow)
            },
        }
    }

    /// Places a line that has been measured.
    fn finish_line(
        &mut self,
        context: &mut RendererContext,
        run: TextRun,
        line: String,
        width: u32,
        height: u32,
    ) -> (action: Action)
        requires
            old(self)@.next < old(self)@.ops.len(),
        ensures
            ({
                let out = placing_line(old(self)@, old(context)@, run@, line@, width, height);
                &&& final(self)@ == out.pass
                &&& final(context)@ == out.context
                &&& action@ == out.action
            }),
    {
        proof {
            use_type_invariant(&*self);
        }
        let size = run.wrap.font_size();
        if size > u32::MAX as u64 {
            return self.fail(context, LayoutError::Overflow);
        }
        let w = rescale_width(width, height, size);
        let h = size as u32;
        context.set_active_style(run.style);
        match context.place(run.depth, w, h, ClickAction::Text) {
            Some(region) => {
                let action = Action::DrawText { text: line, style: run.style, color: run.color, region };
                if run.wrap.is_finished() {
                    self.phase = Phase::Ready;
                    self.next = self.next + 1;
                } else {
                    self.phase = Phase::Lines { run };
                }
                action
            },
            None => {
                self.fail(context, LayoutError::Overflow)
            },
        }
    }

    /// Takes the pass one step further: hands in what has come of the last
    /// action, and returns the next one.
    pub fn step(&mut self, context: &mut RendererContext, event: Event) -> (action: Action)
        ensures
            final(self)@ == step_spec(old(self)@, old(context)@, event@).pass,
            final(context)@ == step_spec(old(self)@, old(context)@, event@).context,
            action@ == step_spec(old(self)@, old(context)@, event@).action,
            in_order(final(self)@),
    {
        proof {
            use_type_invariant(&*self);
            lemma_step_keeps_order(self@, context@, event@);
        }
        let mut phase = Phase::Ready;
        std::mem::swap(&mut self.phase, &mut phase);
        match phase {
            Phase::Failed { error } => self.fail(context, error),
            Phase::Ready => match event {
                Event::Resume => {
                    if self.next < self.ops.len() {
                        self.start(context)
                    } else {
                        context.set_active_style(normal_style());
                        Action::Finished
                    }
                },
                _ => self.fail(context, LayoutError::UnexpectedEvent),
            },
            Phase::Lines { run } => match event {
                Event::Resume => self.go_on(context, run),
                _ => self.fail(context, LayoutError::UnexpectedEvent),
            },
            Phase::AwaitText { run, line } => match event {
                Event::TextMeasured { width, height } => self.finish_line(
                    context,
                    run,
                    line,
                    width,
                    height,
                ),
                Event::TextFailed => self.fail(context, LayoutError::FontFailure),
                _ => self.fail(context, LayoutError::UnexpectedEvent),
            },
            Phase::AwaitFetch { url, depth } => match event {
                Event::ImageFetched { bytes } => {
                    context.cache_image(url.clone(), bytes);
                    context.set_active_style(normal_style());
                    self.phase = Phase::AwaitImage { depth };
                    Action::DecodeImage { url }
                },
                Event::ImageFetchFailed => self.finish_image(context, depth, None),
                _ => self.fail(context, LayoutError::UnexpectedEvent),
            },
            Phase::AwaitImage { depth } => match event {
                Event::ImageLoaded { width, height } => self.finish_image(
                    context,
                    depth,
                    Some((width, height)),
                ),
                Event::ImageLoadFailed => self.finish_image(context, depth, None),
                _ => self.fail(context, LayoutError::UnexpectedEvent),
            },
        }
    }
}

/// Whether a pass is in one piece: the operation at hand is one of its
/// operations, or it has none left and waits for nothing.
pub open spec fn in_order(pass: PassView) -> bool {
    &&& 0 <= pass.next <= pass.ops.len()
    &&& !(pass.phase is Ready || pass.phase is Failed) ==> pass.next < pass.ops.len()
}

/// A step keeps a pass in one piece.
pub proof fn lemma_step_keeps_order(pass: PassView, context: ContextView, event: EventView)
    requires
        in_order(pass),
    ensures
        in_order(step_spec(pass, context, event).pass),
{
}

} // verus!
