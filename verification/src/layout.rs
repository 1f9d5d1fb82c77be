//! The layout of a document as a whole: what a pass comes to when its
//! driver answers as a backend would, stated without any steps, and the
//! proof that the steps of a pass come to just that.

use vstd::prelude::*;
use crate::context::ContextView;
use crate::hitmap::ClickAction;
use crate::image::{is_remote, route_of, uri_parses, ImageRoute};
use crate::metrics::spec_rescale_width;
use crate::pass::{
    continuing, step_spec, text_run, ActionView, EventView, LayoutError, PassView, PhaseView,
    TextRunView,
};
use crate::renderer::LayoutOpView;
use crate::style::FontStyle;
use crate::wrap::{lemma_line_end_greedy, line_text};

verus! {

/// A backend, as far as layout can tell: what it answers when it is asked.
/// It answers the same question in the same way each time.
pub struct Backend {
    /// The size of a line of text in a style, or `None` where the font
    /// fails.
    pub text_size: spec_fn(Seq<char>, FontStyle) -> Option<(u32, u32)>,
    /// The bytes behind an address, or `None` where they cannot be had.
    pub fetch: spec_fn(Seq<char>) -> Option<Seq<u8>>,
    /// The size of the image that bytes hold, or `None` where they hold
    /// none.
    pub decode: spec_fn(Seq<u8>) -> Option<(u32, u32)>,
    /// The size of the image in a file, or `None` where there is none.
    pub read: spec_fn(Seq<char>) -> Option<(u32, u32)>,
}

/// The event that tells of the size of an image, or of there being none.
pub open spec fn loaded(size: Option<(u32, u32)>) -> EventView {
    match size {
        Some((width, height)) => EventView::ImageLoaded { width, height },
        None => EventView::ImageLoadFailed,
    }
}

/// The event that a driver hands in after it has done with the backend what
/// an action asks for.
pub open spec fn answer(backend: Backend, context: ContextView, action: ActionView) -> EventView {
    match action {
        ActionView::MeasureText { text, style } => match (backend.text_size)(text, style) {
            Some((width, height)) => EventView::TextMeasured { width, height },
            None => EventView::TextFailed,
        },
        ActionView::FetchImage { url } => match (backend.fetch)(url) {
            Some(bytes) => EventView::ImageFetched { bytes },
            None => EventView::ImageFetchFailed,
        },
        ActionView::DecodeImage { url } => loaded((backend.decode)(context.images[url])),
        ActionView::LoadImageFile { path } => loaded((backend.read)(path)),
        _ => EventView::Resume,
    }
}

/// A pass between two steps: the pass, the context, and the event that the
/// driver is about to hand in.
pub struct Driven {
    pub pass: PassView,
    pub context: ContextView,
    pub event: EventView,
}

/// The pass after the driver has taken it through the given number of
/// steps, answering each action as the backend does.
pub open spec fn drive(
    pass: PassView,
    context: ContextView,
    event: EventView,
    backend: Backend,
    steps: nat,
) -> Driven
    decreases steps,
{
    if steps == 0 {
        Driven { pass, context, event }
    } else {
        let out = step_spec(pass, context, event);
        drive(
            out.pass,
            out.context,
            answer(backend, out.context, out.action),
            backend,
            (steps - 1) as nat,
        )
    }
}

/// A context with the font in its normal style.
pub open spec fn calm(context: ContextView) -> ContextView {
    context.styled(FontStyle::normal())
}

/// What has been laid out: the context that came of it, and the error that
/// put an end to it, if one did.
pub struct Laid {
    pub context: ContextView,
    pub error: Option<LayoutError>,
}

/// Laying out that ends well.
pub open spec fn done(context: ContextView) -> Laid {
    Laid { context: calm(context), error: None }
}

/// Laying out that ends with an error.
pub open spec fn stopped(context: ContextView, error: LayoutError) -> Laid {
    Laid { context: calm(context), error: Some(error) }
}

/// What comes of the lines of a run that are still to be placed: each is
/// measured by the backend and placed below the one before it.
pub open spec fn lay_run(context: ContextView, run: TextRunView, backend: Backend) -> Laid
    decreases run.wrap.words.len() - run.wrap.next,
{
    if run.wrap.next < 0 || run.wrap.is_finished() {
        done(context)
    } else {
        let line = line_text(run.wrap.line());
        let size = run.wrap.font_size;
        match (backend.text_size)(line, run.style) {
            None => stopped(context, LayoutError::FontFailure),
            Some((width, height)) => if size > u32::MAX || !context.can_place(
                run.depth,
                size as int,
            ) {
                stopped(context, LayoutError::Overflow)
            } else {
                proof {
                    lemma_line_end_greedy(
                        run.wrap.words,
                        run.wrap.next,
                        run.wrap.font_size,
                        run.wrap.width,
                    );
                }
                lay_run(
                    calm(context).placed(
                        run.depth,
                        spec_rescale_width(width, height, size) as u32,
                        size as u32,
                        ClickAction::Text,
                    ),
                    TextRunView { wrap: run.wrap.advanced(), ..run },
                    backend,
                )
            },
        }
    }
}

/// What comes of an image of the given size in logical units, or of one
/// that could not be loaded.
pub open spec fn lay_sized(context: ContextView, depth: nat, size: Option<(u32, u32)>) -> Laid {
    let (w, h) = match size {
        Some((width, height)) => (
            width * context.scaling_factor,
            height * context.scaling_factor,
        ),
        None => (0, 0),
    };
    if w > u32::MAX || h > u32::MAX || !context.can_place(depth, h) {
        stopped(context, LayoutError::Overflow)
    } else {
        done(calm(context).placed(depth, w as u32, h as u32, ClickAction::Image))
    }
}

/// What comes of an image: its bytes are taken from the cache, fetched and
/// then kept in the cache, or read from a file, and it is placed in the size
/// that the backend finds in them.
pub open spec fn lay_image(
    context: ContextView,
    src: Option<Seq<char>>,
    depth: nat,
    backend: Backend,
) -> Laid {
    match src {
        None => lay_sized(context, depth, None),
        Some(s) => match route_of(s, context.images.contains_key(s)) {
            ImageRoute::File => lay_sized(context, depth, (backend.read)(s)),
            ImageRoute::Cached => lay_sized(context, depth, (backend.decode)(context.images[s])),
            ImageRoute::Fetch => match (backend.fetch)(s) {
                Some(bytes) => lay_sized(context.caching(s, bytes), depth, (backend.decode)(bytes)),
                None => lay_sized(context, depth, None),
            },
            ImageRoute::Broken => lay_sized(context, depth, None),
        },
    }
}

/// What comes of one operation.
pub open spec fn lay_op(
    context: ContextView,
    op: LayoutOpView,
    window_width: u32,
    backend: Backend,
) -> Laid {
    match op {
        LayoutOpView::Title { text } => done(context),
        LayoutOpView::LineBreak => if context.indices.1 + context.line_height() <= u32::MAX {
            done(context.broken())
        } else {
            stopped(context, LayoutError::Overflow)
        },
        LayoutOpView::Text { text, tag, depth } => lay_run(
            context,
            text_run(window_width, context, text, tag, depth),
            backend,
        ),
        LayoutOpView::Image { src, depth } => lay_image(context, src, depth, backend),
    }
}

/// What comes of the operations from index `from` on, one after another,
/// until one of them fails.
pub open spec fn lay_ops(
    context: ContextView,
    ops: Seq<LayoutOpView>,
    from: int,
    window_width: u32,
    backend: Backend,
) -> Laid
    decreases ops.len() - from,
{
    if 0 <= from < ops.len() {
        let laid = lay_op(context, ops[from], window_width, backend);
        if laid.error is Some {
            laid
        } else {
            lay_ops(laid.context, ops, from + 1, window_width, backend)
        }
    } else {
        done(context)
    }
}

/// The layout of a document: what comes of a whole pass over its
/// operations, begun from the given context.
pub open spec fn layout(
    ops: Seq<LayoutOpView>,
    window_width: u32,
    context: ContextView,
    backend: Backend,
) -> Laid {
    lay_ops(context.begun(), ops, 0, window_width, backend)
}

/// How many steps the lines of a run take that are still to be placed.
pub open spec fn run_steps(context: ContextView, run: TextRunView, backend: Backend) -> nat
    decreases run.wrap.words.len() - run.wrap.next,
{
    if run.wrap.next < 0 || run.wrap.is_finished() {
        1
    } else {
        let line = line_text(run.wrap.line());
        let size = run.wrap.font_size;
        let rest = TextRunView { wrap: run.wrap.advanced(), ..run };
        match (backend.text_size)(line, run.style) {
            None => 2,
            Some((width, height)) => if size > u32::MAX || !context.can_place(
                run.depth,
                size as int,
            ) {
                2
            } else if rest.wrap.is_finished() {
                2
            } else {
                proof {
                    lemma_line_end_greedy(
                        run.wrap.words,
                        run.wrap.next,
                        run.wrap.font_size,
                        run.wrap.width,
                    );
                }
                2 + run_steps(
                    calm(context).placed(
                        run.depth,
                        spec_rescale_width(width, height, size) as u32,
                        size as u32,
                        ClickAction::Text,
                    ),
                    rest,
                    backend,
                )
            },
        }
    }
}

/// How many steps an image takes.
pub open spec fn image_steps(context: ContextView, src: Option<Seq<char>>, backend: Backend) -> nat {
    match src {
        None => 1,
        Some(s) => match route_of(s, context.images.contains_key(s)) {
            ImageRoute::File => 2,
            ImageRoute::Cached => 2,
            ImageRoute::Fetch => match (backend.fetch)(s) {
                Some(bytes) => 3,
                None => 2,
            },
            ImageRoute::Broken => 1,
        },
    }
}

/// How many steps one operation takes.
pub open spec fn op_steps(
    context: ContextView,
    op: LayoutOpView,
    window_width: u32,
    backend: Backend,
) -> nat {
    match op {
        LayoutOpView::Text { text, tag, depth } => run_steps(
            context,
            text_run(window_width, context, text, tag, depth),
            backend,
        ),
        LayoutOpView::Image { src, depth } => image_steps(context, src, backend),
        _ => 1,
    }
}

/// How many steps the operations from index `from` on take, with the step
/// that finds the pass complete.
pub open spec fn ops_steps(
    context: ContextView,
    ops: Seq<LayoutOpView>,
    from: int,
    window_width: u32,
    backend: Backend,
) -> nat
    decreases ops.len() - from,
{
    if 0 <= from < ops.len() {
        let laid = lay_op(context, ops[from], window_width, backend);
        let steps = op_steps(context, ops[from], window_width, backend);
        if laid.error is Some {
            steps
        } else {
            steps + ops_steps(laid.context, ops, from + 1, window_width, backend)
        }
    } else {
        1
    }
}

/// A step does not look at the style that the font is in: it sets it.
pub proof fn lemma_step_sets_style(pass: PassView, context: ContextView, event: EventView)
    ensures
        step_spec(pass, context, event) == step_spec(pass, calm(context), event),
{
}

/// Driving does not look at the style that the font is in at first.
pub proof fn lemma_drive_sets_style(
    pass: PassView,
    context: ContextView,
    event: EventView,
    backend: Backend,
    steps: nat,
)
    requires
        steps > 0,
    ensures
        drive(pass, context, event, backend, steps) == drive(
            pass,
            calm(context),
            event,
            backend,
            steps,
        ),
{
    lemma_step_sets_style(pass, context, event);
}

/// Driving for some steps and then for some more is driving for all of them.
pub proof fn lemma_drive_on(
    pass: PassView,
    context: ContextView,
    event: EventView,
    backend: Backend,
    first: nat,
    then: nat,
)
    ensures
        ({
            let mid = drive(pass, context, event, backend, first);
            drive(pass, context, event, backend, first + then) == drive(
                mid.pass,
                mid.context,
                mid.event,
                backend,
                then,
            )
        }),
    decreases first,
{
    if first > 0 {
        let out = step_spec(pass, context, event);
        lemma_drive_on(
            out.pass,
            out.context,
            answer(backend, out.context, out.action),
            backend,
            (first - 1) as nat,
            then,
        );
    }
}

/// What is laid out of a run does not rest on the style that the font is in.
pub proof fn lemma_lay_run_sets_style(context: ContextView, run: TextRunView, backend: Backend)
    ensures
        lay_run(context, run, backend) == lay_run(calm(context), run, backend),
        run_steps(context, run, backend) == run_steps(calm(context), run, backend),
{
}

/// The steps of a run come to what is laid out of it. From where a step
/// goes on with the run, the steps that the run takes leave the context as
/// laying out the run leaves it, apart from the style of the font, and leave
/// the pass behind the run, or failed as laying out failed.
pub proof fn lemma_run_is_laid(
    pass: PassView,
    context: ContextView,
    run: TextRunView,
    backend: Backend,
)
    requires
        0 <= run.wrap.next,
        step_spec(pass, context, EventView::Resume) == continuing(pass, context, run),
    ensures
        ({
            let laid = lay_run(context, run, backend);
            let end = drive(
                pass,
                context,
                EventView::Resume,
                backend,
                run_steps(context, run, backend),
            );
            &&& calm(end.context) == laid.context
            &&& laid.error is None ==> end.pass == pass.moved_on() && end.event is Resume
            &&& laid.error matches Some(error) ==> end.pass == pass.in_phase(
                PhaseView::Failed { error },
            ) && end.context == laid.context
        }),
    decreases run.wrap.words.len() - run.wrap.next,
{
    let steps = run_steps(context, run, backend);
    let end = drive(pass, context, EventView::Resume, backend, steps);
    let first = step_spec(pass, context, EventView::Resume);
    let first_event = answer(backend, first.context, first.action);
    assert(end == drive(first.pass, first.context, first_event, backend, (steps - 1) as nat));
    if !run.wrap.is_finished() {
        let second = step_spec(first.pass, first.context, first_event);
        let second_event = answer(backend, second.context, second.action);
        assert(end == drive(second.pass, second.context, second_event, backend, (steps - 2) as nat));
        let rest = TextRunView { wrap: run.wrap.advanced(), ..run };
        let size = run.wrap.font_size;
        lemma_line_end_greedy(
            run.wrap.words,
            run.wrap.next,
            run.wrap.font_size,
            run.wrap.width,
        );
        match (backend.text_size)(line_text(run.wrap.line()), run.style) {
            Some((width, height)) => {
                if size <= u32::MAX && context.can_place(run.depth, size as int)
                    && !rest.wrap.is_finished() {
                    let placed = calm(context).placed(
                        run.depth,
                        spec_rescale_width(width, height, size) as u32,
                        size as u32,
                        ClickAction::Text,
                    );
                    lemma_run_is_laid(second.pass, second.context, rest, backend);
                    lemma_lay_run_sets_style(second.context, rest, backend);
                    lemma_lay_run_sets_style(placed, rest, backend);
                }
            },
            None => {},
        }
    }
}

/// What is laid out of an operation does not rest on the style that the
/// font is in.
pub proof fn lemma_lay_op_sets_style(
    context: ContextView,
    op: LayoutOpView,
    window_width: u32,
    backend: Backend,
)
    ensures
        lay_op(context, op, window_width, backend) == lay_op(
            calm(context),
            op,
            window_width,
            backend,
        ),
        op_steps(context, op, window_width, backend) == op_steps(
            calm(context),
            op,
            window_width,
            backend,
        ),
{
    match op {
        LayoutOpView::Text { text, tag, depth } => {
            lemma_lay_run_sets_style(
                context,
                text_run(window_width, context, text, tag, depth),
                backend,
            );
        },
        _ => {},
    }
}

/// What is laid out of several operations does not rest on the style that
/// the font is in.
pub proof fn lemma_lay_ops_sets_style(
    context: ContextView,
    ops: Seq<LayoutOpView>,
    from: int,
    window_width: u32,
    backend: Backend,
)
    ensures
        lay_ops(context, ops, from, window_width, backend) == lay_ops(
            calm(context),
            ops,
            from,
            window_width,
            backend,
        ),
        ops_steps(context, ops, from, window_width, backend) == ops_steps(
            calm(context),
            ops,
            from,
            window_width,
            backend,
        ),
{
    if 0 <= from < ops.len() {
        lemma_lay_op_sets_style(context, ops[from], window_width, backend);
    }
}

/// The steps of an image come to what is laid out of it.
proof fn lemma_image_is_laid(
    pass: PassView,
    context: ContextView,
    src: Option<Seq<char>>,
    depth: nat,
    backend: Backend,
)
    requires
        pass.phase is Ready,
        0 <= pass.next < pass.ops.len(),
        pass.ops[pass.next] == (LayoutOpView::Image { src, depth }),
    ensures
        ({
            let laid = lay_image(context, src, depth, backend);
            let end = drive(
                pass,
                context,
                EventView::Resume,
                backend,
                image_steps(context, src, backend),
            );
            &&& calm(end.context) == laid.context
            &&& laid.error is None ==> end.pass == pass.moved_on() && end.event is Resume
            &&& laid.error matches Some(error) ==> end.pass == pass.in_phase(
                PhaseView::Failed { error },
            ) && end.context == laid.context
        }),
{
    let steps = image_steps(context, src, backend);
    let first = step_spec(pass, context, EventView::Resume);
    let first_event = answer(backend, first.context, first.action);
    if steps >= 2 {
        let second = step_spec(first.pass, first.context, first_event);
        let second_event = answer(backend, second.context, second.action);
        assert(drive(first.pass, first.context, first_event, backend, (steps - 1) as nat)
            == drive(second.pass, second.context, second_event, backend, (steps - 2) as nat));
        if steps == 3 {
            let third = step_spec(second.pass, second.context, second_event);
            let third_event = answer(backend, third.context, third.action);
            assert(drive(second.pass, second.context, second_event, backend, 1) == drive(
                third.pass,
                third.context,
                third_event,
                backend,
                0,
            ));
        }
    }
}

/// The steps of an operation come to what is laid out of it. From between
/// two operations, the steps that the next operation takes leave the context
/// as laying out the operation leaves it, apart from the style of the font,
/// and leave the pass behind the operation, or failed as laying out failed.
pub proof fn lemma_op_is_laid(pass: PassView, context: ContextView, backend: Backend)
    requires
        pass.phase is Ready,
        0 <= pass.next < pass.ops.len(),
    ensures
        ({
            let op = pass.ops[pass.next];
            let laid = lay_op(context, op, pass.window_width, backend);
            let end = drive(
                pass,
                context,
                EventView::Resume,
                backend,
                op_steps(context, op, pass.window_width, backend),
            );
            &&& calm(end.context) == laid.context
            &&& laid.error is None ==> end.pass == pass.moved_on() && end.event is Resume
            &&& laid.error matches Some(error) ==> end.pass == pass.in_phase(
                PhaseView::Failed { error },
            ) && end.context == laid.context
        }),
{
    let op = pass.ops[pass.next];
    match op {
        LayoutOpView::Text { text, tag, depth } => {
            let run = text_run(pass.window_width, context, text, tag, depth);
            lemma_run_is_laid(pass, context, run, backend);
        },
        LayoutOpView::Image { src, depth } => {
            lemma_image_is_laid(pass, context, src, depth, backend);
        },
        _ => {
            let first = step_spec(pass, context, EventView::Resume);
            let first_event = answer(backend, first.context, first.action);
            assert(drive(pass, context, EventView::Resume, backend, 1) == drive(
                first.pass,
                first.context,
                first_event,
                backend,
                0,
            ));
        },
    }
}

/// The steps of a pass come to the layout. From between two operations, the
/// steps that the operations still to come take, with one more to find the
/// pass complete, leave the context as laying out those operations leaves
/// it, and leave the pass complete, or failed as laying out failed.
pub proof fn lemma_ops_are_laid(pass: PassView, context: ContextView, backend: Backend)
    requires
        pass.phase is Ready,
        0 <= pass.next <= pass.ops.len(),
    ensures
        ({
            let laid = lay_ops(context, pass.ops, pass.next, pass.window_width, backend);
            let end = drive(
                pass,
                context,
                EventView::Resume,
                backend,
                ops_steps(context, pass.ops, pass.next, pass.window_width, backend),
            );
            &&& end.context == laid.context
            &&& end.pass.ops == pass.ops
            &&& laid.error is None ==> end.pass.is_complete()
            &&& laid.error matches Some(error) ==> end.pass.phase == (PhaseView::Failed { error })
        }),
    decreases pass.ops.len() - pass.next,
{
    if pass.next < pass.ops.len() {
        let op = pass.ops[pass.next];
        let laid = lay_op(context, op, pass.window_width, backend);
        let first = op_steps(context, op, pass.window_width, backend);
        let mid = drive(pass, context, EventView::Resume, backend, first);
        lemma_op_is_laid(pass, context, backend);
        if laid.error is None {
            let then = ops_steps(laid.context, pass.ops, pass.next + 1, pass.window_width, backend);
            lemma_drive_on(pass, context, EventView::Resume, backend, first, then);
            lemma_drive_sets_style(mid.pass, mid.context, mid.event, backend, then);
            lemma_ops_are_laid(mid.pass, laid.context, backend);
        }
    } else {
        let first = step_spec(pass, context, EventView::Resume);
        let first_event = answer(backend, first.context, first.action);
        assert(drive(pass, context, EventView::Resume, backend, 1) == drive(
            first.pass,
            first.context,
            first_event,
            backend,
            0,
        ));
    }
}

/// A pass computes the layout. Driven from its beginning by a driver that
/// answers as the backend does, a pass is at its end after the steps that
/// the layout takes: complete, with the context and so the table of regions
/// that the layout names, or failed with the error and the context that the
/// layout names.
pub proof fn lemma_pass_computes_layout(
    ops: Seq<LayoutOpView>,
    window_width: u32,
    context: ContextView,
    backend: Backend,
)
    ensures
        ({
            let laid = layout(ops, window_width, context, backend);
            let end = drive(
                PassView::initial(ops, window_width),
                context.begun(),
                EventView::Resume,
                backend,
                ops_steps(context.begun(), ops, 0, window_width, backend),
            );
            &&& end.context == laid.context
            &&& laid.error is None ==> end.pass.is_complete()
            &&& laid.error matches Some(error) ==> end.pass.phase == (PhaseView::Failed { error })
        }),
{
    lemma_ops_are_laid(PassView::initial(ops, window_width), context.begun(), backend);
}

/// Whether a cache holds what the backend fetches: every address in it is
/// a valid URI, and its bytes are those that the backend fetches from it.
pub open spec fn coherent(images: Map<Seq<char>, Seq<u8>>, backend: Backend) -> bool {
    forall|url: Seq<char>| #[trigger]
        images.contains_key(url) ==> uri_parses(url) && (backend.fetch)(url) == Some(images[url])
}

/// Whether two contexts are the same but for the images they have fetched.
pub open spec fn alike(one: ContextView, other: ContextView) -> bool {
    &&& one.scaling_factor == other.scaling_factor
    &&& one.viewport == other.viewport
    &&& one.hit_map == other.hit_map
    &&& one.color_scheme == other.color_scheme
    &&& one.indices == other.indices
    &&& one.active_style == other.active_style
}

/// The size that the backend finds for the image that a source names,
/// whatever the cache holds.
pub open spec fn image_size(src: Option<Seq<char>>, backend: Backend) -> Option<(u32, u32)> {
    match src {
        None => None,
        Some(s) => if !is_remote(s) {
            (backend.read)(s)
        } else if !uri_parses(s) {
            None
        } else {
            match (backend.fetch)(s) {
                Some(bytes) => (backend.decode)(bytes),
                None => None,
            }
        },
    }
}

/// With a cache that holds what the backend fetches, an image is laid out in
/// the size that the backend finds for it, whether its bytes are in the
/// cache or not; and the cache holds what the backend fetches afterwards
/// too.
pub proof fn lemma_image_rests_on_backend(
    context: ContextView,
    src: Option<Seq<char>>,
    depth: nat,
    backend: Backend,
)
    requires
        coherent(context.images, backend),
    ensures
        ({
            let laid = lay_image(context, src, depth, backend);
            let plain = lay_sized(context, depth, image_size(src, backend));
            &&& alike(laid.context, plain.context)
            &&& laid.error == plain.error
            &&& coherent(laid.context.images, backend)
            &&& context.images.dom().subset_of(laid.context.images.dom())
        }),
{
}

/// What is laid out of a run is the same, but for the images, from contexts
/// that are the same but for the images; and it leaves the images alone.
pub proof fn lemma_run_rests_on_backend(
    one: ContextView,
    other: ContextView,
    run: TextRunView,
    backend: Backend,
)
    requires
        alike(one, other),
    ensures
        alike(lay_run(one, run, backend).context, lay_run(other, run, backend).context),
        lay_run(one, run, backend).error == lay_run(other, run, backend).error,
        lay_run(one, run, backend).context.images == one.images,
    decreases run.wrap.words.len() - run.wrap.next,
{
    if !(run.wrap.next < 0 || run.wrap.is_finished()) {
        let size = run.wrap.font_size;
        match (backend.text_size)(line_text(run.wrap.line()), run.style) {
            Some((width, height)) => {
                if !(size > u32::MAX || !one.can_place(run.depth, size as int)) {
                    lemma_line_end_greedy(
                        run.wrap.words,
                        run.wrap.next,
                        run.wrap.font_size,
                        run.wrap.width,
                    );
                    let w = spec_rescale_width(width, height, size) as u32;
                    lemma_run_rests_on_backend(
                        calm(one).placed(run.depth, w, size as u32, ClickAction::Text),
                        calm(other).placed(run.depth, w, size as u32, ClickAction::Text),
                        TextRunView { wrap: run.wrap.advanced(), ..run },
                        backend,
                    );
                }
            },
            None => {},
        }
    }
}

/// With caches that hold what the backend fetches, what is laid out of the
/// operations from index `from` on is the same, but for the images, from
/// contexts that are the same but for the images. Scroll offset, scaling
/// factor and colours stay as they are, and the cache holds what the backend
/// fetches afterwards too.
pub proof fn lemma_ops_rest_on_backend(
    one: ContextView,
    other: ContextView,
    ops: Seq<LayoutOpView>,
    from: int,
    window_width: u32,
    backend: Backend,
)
    requires
        alike(one, other),
        coherent(one.images, backend),
        coherent(other.images, backend),
    ensures
        ({
            let first = lay_ops(one, ops, from, window_width, backend);
            let second = lay_ops(other, ops, from, window_width, backend);
            &&& alike(first.context, second.context)
            &&& first.error == second.error
            &&& coherent(first.context.images, backend)
            &&& first.context.viewport == one.viewport
            &&& first.context.scaling_factor == one.scaling_factor
            &&& first.context.color_scheme == one.color_scheme
        }),
    decreases ops.len() - from,
{
    if 0 <= from < ops.len() {
        let first = lay_op(one, ops[from], window_width, backend);
        let second = lay_op(other, ops[from], window_width, backend);
        match ops[from] {
            LayoutOpView::Text { text, tag, depth } => {
                let run = text_run(window_width, one, text, tag, depth);
                lemma_run_rests_on_backend(one, other, run, backend);
                lemma_run_rests_on_backend(other, one, run, backend);
                lemma_run_keeps(one, run, backend);
            },
            LayoutOpView::Image { src, depth } => {
                lemma_image_rests_on_backend(one, src, depth, backend);
                lemma_image_rests_on_backend(other, src, depth, backend);
            },
            _ => {},
        }
        if first.error is None {
            lemma_ops_rest_on_backend(
                first.context,
                second.context,
                ops,
                from + 1,
                window_width,
                backend,
            );
        }
    }
}

/// Laying out a run leaves scroll offset, scaling factor and colours as they
/// are.
proof fn lemma_run_keeps(context: ContextView, run: TextRunView, backend: Backend)
    ensures
        lay_run(context, run, backend).context.viewport == context.viewport,
        lay_run(context, run, backend).context.scaling_factor == context.scaling_factor,
        lay_run(context, run, backend).context.color_scheme == context.color_scheme,
    decreases run.wrap.words.len() - run.wrap.next,
{
    if !(run.wrap.next < 0 || run.wrap.is_finished()) {
        let size = run.wrap.font_size;
        match (backend.text_size)(line_text(run.wrap.line()), run.style) {
            Some((width, height)) => {
                if !(size > u32::MAX || !context.can_place(run.depth, size as int)) {
                    lemma_line_end_greedy(
                        run.wrap.words,
                        run.wrap.next,
                        run.wrap.font_size,
                        run.wrap.width,
                    );
                    lemma_run_keeps(
                        calm(context).placed(
                            run.depth,
                            spec_rescale_width(width, height, size) as u32,
                            size as u32,
                            ClickAction::Text,
                        ),
                        TextRunView { wrap: run.wrap.advanced(), ..run },
                        backend,
                    );
                }
            },
            None => {},
        }
    }
}

/// Two passes, one after the other, come to the same table of regions. With
/// a backend that answers the same question in the same way each time, and
/// a cache that holds what the backend fetches, laying out the document and
/// then laying it out again gives the same regions, one by one, the same
/// cursor and the same outcome, whatever the first pass has added to the
/// cache.
pub proof fn lemma_second_pass_agrees(
    ops: Seq<LayoutOpView>,
    window_width: u32,
    context: ContextView,
    backend: Backend,
)
    requires
        coherent(context.images, backend),
    ensures
        ({
            let first = layout(ops, window_width, context, backend);
            let second = layout(ops, window_width, first.context, backend);
            &&& second.context.hit_map == first.context.hit_map
            &&& second.context.indices == first.context.indices
            &&& second.error == first.error
            &&& coherent(first.context.images, backend)
        }),
{
    let first = layout(ops, window_width, context, backend);
    lemma_ops_rest_on_backend(
        context.begun(),
        context.begun(),
        ops,
        0,
        window_width,
        backend,
    );
    lemma_ops_rest_on_backend(
        context.begun(),
        first.context.begun(),
        ops,
        0,
        window_width,
        backend,
    );
}

/// The layout rests on the document, the window, the scroll offset, the
/// scaling factor, the colours and the backend, and on nothing else: two
/// contexts that agree in these, with caches that hold what the backend
/// fetches, come to the same table of regions.
pub proof fn lemma_layout_rests_on_what_lasts(
    ops: Seq<LayoutOpView>,
    window_width: u32,
    one: ContextView,
    other: ContextView,
    backend: Backend,
)
    requires
        one.viewport == other.viewport,
        one.scaling_factor == other.scaling_factor,
        one.color_scheme == other.color_scheme,
        coherent(one.images, backend),
        coherent(other.images, backend),
    ensures
        layout(ops, window_width, one, backend).context.hit_map == layout(
            ops,
            window_width,
            other,
            backend,
        ).context.hit_map,
        layout(ops, window_width, one, backend).error == layout(
            ops,
            window_width,
            other,
            backend,
        ).error,
{
    lemma_ops_rest_on_backend(one.begun(), other.begun(), ops, 0, window_width, backend);
}

} // verus!
