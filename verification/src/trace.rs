//! What holds of a pass whatever its driver hands in: what a step leaves
//! alone, what the cache is good for, where the regions lie, and that every
//! pass comes to an end.

use vstd::prelude::*;
use crate::context::{ContextView, LINE_HEIGHT};
use crate::hitmap::HitRegion;
use crate::pass::{
    in_order, lemma_step_keeps_order, starting, step_spec, text_run, ActionView, EventView,
    PassView, PhaseView, TextRunView,
};
use crate::renderer::{text_ops, LayoutOpView};
use crate::style::{is_invisible, FontStyle};
use crate::text::words_of;
use crate::wrap::lemma_line_end_greedy;

verus! {

/// The pass and the context after the driver has handed in several events,
/// one step each.
pub open spec fn replay(pass: PassView, context: ContextView, events: Seq<EventView>) -> (
    PassView,
    ContextView,
)
    decreases events.len(),
{
    if events.len() == 0 {
        (pass, context)
    } else {
        let before = replay(pass, context, events.drop_last());
        let out = step_spec(before.0, before.1, events.last());
        (out.pass, out.context)
    }
}

/// What the driver is asked to do, step by step, as it hands in several
/// events.
pub open spec fn actions(pass: PassView, context: ContextView, events: Seq<EventView>) -> Seq<
    ActionView,
>
    decreases events.len(),
{
    if events.len() == 0 {
        seq![]
    } else {
        let before = replay(pass, context, events.drop_last());
        actions(pass, context, events.drop_last()).push(
            step_spec(before.0, before.1, events.last()).action,
        )
    }
}

/// Whether `longer` is `shorter` with regions added at its end.
pub open spec fn extends(longer: Seq<HitRegion>, shorter: Seq<HitRegion>) -> bool {
    shorter.is_prefix_of(longer)
}

/// What a step leaves alone: scroll offset, scaling factor and colours stay
/// as they are; the regions placed so far stay, and at most one is added
/// behind them; an address that the cache holds bytes for stays in it.
pub proof fn lemma_step_keeps(pass: PassView, context: ContextView, event: EventView)
    ensures
        ({
            let after = step_spec(pass, context, event).context;
            &&& after.viewport == context.viewport
            &&& after.scaling_factor == context.scaling_factor
            &&& after.color_scheme == context.color_scheme
            &&& extends(after.hit_map, context.hit_map)
            &&& after.hit_map.len() <= context.hit_map.len() + 1
            &&& context.images.dom().subset_of(after.images.dom())
        }),
{
}

/// A pass rests on what lasts alone. Two passes over the same operations
/// for the same window width, begun from contexts that agree in scroll
/// offset, scaling factor, colours and fetched images, and driven by the
/// same events, come to the same table of regions, region by region, and
/// ask the same of the driver. What an earlier pass left of cursor, regions
/// and font style plays no part.
pub proof fn lemma_replay_rests_on_what_lasts(
    ops: Seq<LayoutOpView>,
    window_width: u32,
    one: ContextView,
    other: ContextView,
    events: Seq<EventView>,
)
    requires
        one.viewport == other.viewport,
        one.scaling_factor == other.scaling_factor,
        one.color_scheme == other.color_scheme,
        one.images == other.images,
    ensures
        ({
            let pass = PassView::initial(ops, window_width);
            &&& replay(pass, one.begun(), events).1.hit_map == replay(
                pass,
                other.begun(),
                events,
            ).1.hit_map
            &&& replay(pass, one.begun(), events) == replay(pass, other.begun(), events)
            &&& actions(pass, one.begun(), events) == actions(pass, other.begun(), events)
        }),
{
}

/// Text below a tag that hides it places nothing. Whatever such a text node
/// gives rise to is the naming of the window or a line break, and the step
/// that begins it adds no region and asks for nothing to be measured or
/// drawn. A line break moves the cursor down by one line height and leaves
/// its indent alone.
pub proof fn lemma_hidden_text_places_nothing(
    contents: Seq<char>,
    tag: Seq<char>,
    depth: nat,
    pass: PassView,
    context: ContextView,
    i: int,
)
    requires
        is_invisible(tag),
        0 <= i < text_ops(contents, tag, depth).len(),
    ensures
        ({
            let op = text_ops(contents, tag, depth)[i];
            let out = starting(pass, context, op);
            &&& op is Title || op is LineBreak
            &&& out.pass.phase is Ready || out.pass.phase is Failed
            &&& out.context.hit_map == context.hit_map
            &&& !(out.action is MeasureText)
            &&& !(out.action is DrawText)
            &&& !(out.action is DrawImage)
            &&& op is LineBreak && out.action is Continue ==> out.context.indices == (
                context.indices.0,
                context.indices.1 + LINE_HEIGHT * context.scaling_factor,
            )
        }),
{
}

/// Text directly below `br` gives rise to one line break and nothing else.
pub proof fn lemma_br_breaks_the_line(contents: Seq<char>, depth: nat)
    ensures
        text_ops(contents, "br"@, depth) == seq![LayoutOpView::LineBreak],
{
    reveal_strlit("br");
    reveal_strlit("title");
    assert("br"@.len() != "title"@.len());
}

/// An image is fetched once. While the cache holds bytes for an address, no
/// step asks to fetch that address, and the bytes stay in the cache.
pub proof fn lemma_cached_image_is_not_fetched(
    pass: PassView,
    context: ContextView,
    event: EventView,
    url: Seq<char>,
)
    requires
        context.images.contains_key(url),
        !(pass.phase matches PhaseView::AwaitFetch { url: awaited, .. } && awaited == url),
    ensures
        step_spec(pass, context, event).action != (ActionView::FetchImage { url }),
        step_spec(pass, context, event).context.images.contains_key(url),
        step_spec(pass, context, event).context.images[url] == context.images[url],
        !(step_spec(pass, context, event).pass.phase matches PhaseView::AwaitFetch {
            url: awaited,
            ..
        } && awaited == url),
{
}

/// The bytes that a fetch brings are kept under the address they were
/// fetched from, and are what the driver is then asked to decode.
pub proof fn lemma_fetched_image_is_cached(
    pass: PassView,
    context: ContextView,
    url: Seq<char>,
    depth: nat,
    bytes: Seq<u8>,
)
    requires
        pass.phase == (PhaseView::AwaitFetch { url, depth }),
    ensures
        ({
            let out = step_spec(pass, context, EventView::ImageFetched { bytes });
            &&& out.context.images.contains_key(url)
            &&& out.context.images[url] == bytes
            &&& out.action == ActionView::DecodeImage { url }
        }),
{
}

/// Whenever the driver is asked to decode the bytes of an address, the cache
/// holds them.
pub proof fn lemma_decode_finds_bytes(pass: PassView, context: ContextView, event: EventView)
    ensures
        step_spec(pass, context, event).action matches ActionView::DecodeImage { url }
            ==> step_spec(pass, context, event).context.images.contains_key(url),
{
}

/// Across any number of steps, and so across passes: once the cache holds
/// bytes for an address and no fetch of it is under way, the driver is never
/// asked to fetch it again.
pub proof fn lemma_no_second_fetch(
    pass: PassView,
    context: ContextView,
    events: Seq<EventView>,
    url: Seq<char>,
)
    requires
        context.images.contains_key(url),
        !(pass.phase matches PhaseView::AwaitFetch { url: awaited, .. } && awaited == url),
    ensures
        replay(pass, context, events).1.images.contains_key(url),
        replay(pass, context, events).1.images[url] == context.images[url],
        !(replay(pass, context, events).0.phase matches PhaseView::AwaitFetch {
            url: awaited,
            ..
        } && awaited == url),
        forall|i: int|
            0 <= i < events.len() ==> #[trigger] actions(pass, context, events)[i] != (
                ActionView::FetchImage { url }
            ),
        actions(pass, context, events).len() == events.len(),
    decreases events.len(),
{
    if events.len() > 0 {
        let earlier = events.drop_last();
        lemma_no_second_fetch(pass, context, earlier, url);
        let before = replay(pass, context, earlier);
        lemma_cached_image_is_not_fetched(before.0, before.1, events.last(), url);
    }
}

/// The font is in the style that the action at hand is to be done in: in
/// the style of the run while one of its lines is measured and drawn, and in
/// the normal style at every other time. No style outlasts its line.
pub proof fn lemma_style_follows_action(pass: PassView, context: ContextView, event: EventView)
    ensures
        step_spec(pass, context, event).context.active_style == match step_spec(
            pass,
            context,
            event,
        ).action {
            ActionView::MeasureText { text, style } => style,
            ActionView::DrawText { text, style, color, region } => style,
            _ => FontStyle::normal(),
        },
{
}


/// Whether the regions of a context run down the page: each lies below the
/// one before it and above the cursor, and offset and cursor are in the
/// ranges of the numbers that hold them.
pub open spec fn runs_downward(context: ContextView) -> bool {
    &&& 0 <= context.indices.1 <= u32::MAX
    &&& i32::MIN <= context.viewport.1 <= i32::MAX
    &&& forall|i: int|
        0 <= i < context.hit_map.len() ==> (#[trigger] context.hit_map[i]).y
            + context.hit_map[i].height <= context.indices.1 + context.viewport.1
    &&& forall|i: int, j: int|
        0 <= i < j < context.hit_map.len() ==> (#[trigger] context.hit_map[i]).y
            + context.hit_map[i].height <= (#[trigger] context.hit_map[j]).y
}

/// A pass begins with regions that run down the page, as it begins with
/// none.
pub proof fn lemma_begun_runs_downward(context: ContextView)
    requires
        i32::MIN <= context.viewport.1 <= i32::MAX,
    ensures
        runs_downward(context.begun()),
{
}

/// A step keeps the regions running down the page: a region is placed at
/// the height of the cursor, and the cursor moves to below it.
pub proof fn lemma_step_runs_downward(pass: PassView, context: ContextView, event: EventView)
    requires
        runs_downward(context),
    ensures
        runs_downward(step_spec(pass, context, event).context),
{
    let after = step_spec(pass, context, event).context;
    lemma_step_keeps(pass, context, event);
    assert forall|i: int| 0 <= i < context.hit_map.len() implies after.hit_map[i]
        == context.hit_map[i] by {
    }
}

/// The regions of a pass are in the order of the document, from the top of
/// the page to its bottom: whatever events the driver hands in, each region
/// lies below the one before it.
pub proof fn lemma_regions_run_downward(
    ops: Seq<LayoutOpView>,
    window_width: u32,
    context: ContextView,
    events: Seq<EventView>,
)
    requires
        i32::MIN <= context.viewport.1 <= i32::MAX,
    ensures
        runs_downward(replay(PassView::initial(ops, window_width), context.begun(), events).1),
    decreases events.len(),
{
    let pass = PassView::initial(ops, window_width);
    if events.len() == 0 {
        lemma_begun_runs_downward(context);
    } else {
        lemma_regions_run_downward(ops, window_width, context, events.drop_last());
        let before = replay(pass, context.begun(), events.drop_last());
        lemma_step_runs_downward(before.0, before.1, events.last());
    }
}

/// How many steps an operation takes at most, from its beginning to its end.
pub open spec fn steps_of(op: LayoutOpView) -> nat {
    match op {
        LayoutOpView::Text { text, tag, depth } => 2 * words_of(text).len() + 3,
        LayoutOpView::Image { src, depth } => 4,
        _ => 1,
    }
}

/// How many steps the operations from index `from` on take at most.
pub open spec fn steps_from(ops: Seq<LayoutOpView>, from: int) -> nat
    decreases ops.len() - from,
{
    if 0 <= from < ops.len() {
        steps_of(ops[from]) + steps_from(ops, from + 1)
    } else {
        0
    }
}

/// How many words of a run no line has taken yet.
pub open spec fn words_left(run: TextRunView) -> nat {
    if run.wrap.next < run.wrap.words.len() {
        (run.wrap.words.len() - run.wrap.next) as nat
    } else {
        0
    }
}

/// How many steps a pass takes at most until it is complete or has failed.
pub open spec fn steps_left(pass: PassView) -> nat {
    match pass.phase {
        PhaseView::Failed { error } => 0,
        PhaseView::Ready => steps_from(pass.ops, pass.next),
        PhaseView::Lines { run } => 2 * words_left(run) + 1 + steps_from(pass.ops, pass.next + 1),
        PhaseView::AwaitText { run, line } => 2 * words_left(run) + 2 + steps_from(
            pass.ops,
            pass.next + 1,
        ),
        PhaseView::AwaitFetch { url, depth } => 3 + steps_from(pass.ops, pass.next + 1),
        PhaseView::AwaitImage { depth } => 2 + steps_from(pass.ops, pass.next + 1),
    }
}

/// Whether a pass has come to its end, complete or failed.
pub open spec fn has_ended(pass: PassView) -> bool {
    pass.is_complete() || pass.phase is Failed
}

/// Every step brings a pass nearer to its end: as long as the pass has not
/// ended, a step leaves fewer steps to take than there were.
pub proof fn lemma_step_makes_progress(pass: PassView, context: ContextView, event: EventView)
    requires
        in_order(pass),
        !has_ended(pass),
    ensures
        steps_left(step_spec(pass, context, event).pass) < steps_left(pass),
{
    let after = step_spec(pass, context, event).pass;
    match pass.phase {
        PhaseView::Ready => {
            match pass.ops[pass.next] {
                LayoutOpView::Text { text, tag, depth } => {
                    let run = text_run(pass.window_width, context, text, tag, depth);
                    if !run.wrap.is_finished() {
                        lemma_line_end_greedy(
                            run.wrap.words,
                            run.wrap.next,
                            run.wrap.font_size,
                            run.wrap.width,
                        );
                    }
                },
                _ => {},
            }
        },
        PhaseView::Lines { run } => {
            if !run.wrap.is_finished() && 0 <= run.wrap.next {
                lemma_line_end_greedy(
                    run.wrap.words,
                    run.wrap.next,
                    run.wrap.font_size,
                    run.wrap.width,
                );
            }
        },
        _ => {},
    }
}

/// A pass comes to its end. Whatever the driver hands in, after as many
/// steps as [`steps_left`] counts the pass is complete or has failed, and it
/// stays so.
pub proof fn lemma_pass_ends(pass: PassView, context: ContextView, events: Seq<EventView>)
    requires
        in_order(pass),
    ensures
        in_order(replay(pass, context, events).0),
        has_ended(replay(pass, context, events).0) || steps_left(
            replay(pass, context, events).0,
        ) + events.len() <= steps_left(pass),
        events.len() >= steps_left(pass) ==> has_ended(replay(pass, context, events).0),
    decreases events.len(),
{
    if events.len() > 0 {
        lemma_pass_ends(pass, context, events.drop_last());
        let before = replay(pass, context, events.drop_last());
        lemma_step_keeps_order(before.0, before.1, events.last());
        if !has_ended(before.0) {
            lemma_step_makes_progress(before.0, before.1, events.last());
        }
    }
}

} // verus!
