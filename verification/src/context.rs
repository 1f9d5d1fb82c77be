//! The state of the layout engine: what lasts from one pass to the next
//! (scroll offset, scaling factor, colours, fetched images) and what every
//! pass builds anew (the cursor and the table of clickable regions).

use vstd::prelude::*;
use vstd::hash_map::StringHashMap;
use crate::colorscheme::ColorScheme;
use crate::hitmap::{hit_test, is_first_hit, misses_all, ClickAction, HitRegion};
use crate::style::FontStyle;

verus! {

/// How far one step of the mouse wheel scrolls, in backend pixels.
pub const SCROLL_SPEED: i32 = 12;

/// How far each level of the document tree is indented, in logical units.
pub const INDENT_STEP: u32 = 12;

/// How far a line break moves down, in logical units.
pub const LINE_HEIGHT: u32 = 12;

/// What a [`RendererContext`] stands for.
pub struct ContextView {
    /// Backend pixels per logical unit.
    pub scaling_factor: u32,
    /// The images fetched so far, by the address they were fetched from.
    pub images: Map<Seq<char>, Seq<u8>>,
    /// The scroll offset: horizontal, then vertical.
    pub viewport: (int, int),
    /// The clickable regions of the current pass, in document order.
    pub hit_map: Seq<HitRegion>,
    pub color_scheme: ColorScheme,
    /// The cursor, in backend pixels before the scroll offset is applied:
    /// the indent of what was placed last, and the height filled so far.
    pub indices: (int, int),
    /// The style that the font is in.
    pub active_style: FontStyle,
}

impl ContextView {
    /// The state that a context is created in.
    pub open spec fn initial(scaling_factor: u32, color_scheme: ColorScheme) -> ContextView {
        ContextView {
            scaling_factor,
            images: Map::empty(),
            viewport: (0, 0),
            hit_map: Seq::empty(),
            color_scheme,
            indices: (0, 0),
            active_style: FontStyle::normal(),
        }
    }

    /// The state at the start of a pass: the cursor at the origin, no region,
    /// the font in its normal style. What lasts is kept.
    pub open spec fn begun(self) -> ContextView {
        ContextView {
            hit_map: Seq::empty(),
            indices: (0, 0),
            active_style: FontStyle::normal(),
            ..self
        }
    }

    /// The state after the wheel has moved by the given steps.
    pub open spec fn scrolled(self, wheel_x: int, wheel_y: int) -> ContextView {
        ContextView { viewport: scroll_target(self.viewport, wheel_x, wheel_y), ..self }
    }

    /// The indent, in backend pixels, of what stands `depth` levels below the
    /// root.
    pub open spec fn indent_of(self, depth: nat) -> int {
        depth * INDENT_STEP * self.scaling_factor
    }

    /// Whether a box of the given height, `depth` levels below the root, can
    /// be placed without the cursor leaving the range of a `u32`.
    pub open spec fn can_place(self, depth: nat, height: int) -> bool {
        &&& self.indent_of(depth) <= u32::MAX
        &&& self.indices.1 + height <= u32::MAX
    }

    /// The region that a box of the given size gets, `depth` levels below the
    /// root: at the indent of that depth and at the height of the cursor,
    /// both moved by the scroll offset.
    pub open spec fn region_at(
        self,
        depth: nat,
        width: u32,
        height: u32,
        action: ClickAction,
    ) -> HitRegion {
        HitRegion {
            x: (self.indent_of(depth) + self.viewport.0) as i64,
            y: (self.indices.1 + self.viewport.1) as i64,
            width,
            height,
            action,
        }
    }

    /// The state after a box has been placed: its region is the last of the
    /// table, and the cursor stands at its indent and below it.
    pub open spec fn placed(
        self,
        depth: nat,
        width: u32,
        height: u32,
        action: ClickAction,
    ) -> ContextView {
        ContextView {
            hit_map: self.hit_map.push(self.region_at(depth, width, height, action)),
            indices: (self.indent_of(depth), self.indices.1 + height),
            ..self
        }
    }

    /// How far a line break moves the cursor down, in backend pixels.
    pub open spec fn line_height(self) -> int {
        LINE_HEIGHT * self.scaling_factor
    }

    /// The state after a line break.
    pub open spec fn broken(self) -> ContextView {
        ContextView { indices: (self.indices.0, self.indices.1 + self.line_height()), ..self }
    }

    /// The state after an image has been fetched.
    pub open spec fn caching(self, url: Seq<char>, bytes: Seq<u8>) -> ContextView {
        ContextView { images: self.images.insert(url, bytes), ..self }
    }

    /// The state with the font in the given style.
    pub open spec fn styled(self, style: FontStyle) -> ContextView {
        ContextView { active_style: style, ..self }
    }

    /// The point in backend pixels that a click at the given window
    /// coordinates stands for.
    pub open spec fn click_point(self, x: i32, y: i32) -> (int, int) {
        (x * self.scaling_factor, y * self.scaling_factor)
    }
}

/// Where the offset (`dx`, `dy`) ends up after the wheel has moved by the
/// given steps. The vertical offset never rises above zero: there is no
/// scrolling to above the top of the document. The horizontal offset is free.
pub open spec fn scroll_target(offset: (int, int), wheel_x: int, wheel_y: int) -> (int, int) {
    let dy = offset.1 + wheel_y * SCROLL_SPEED;
    (
        offset.0 + wheel_x * SCROLL_SPEED,
        if dy > 0 {
            0
        } else {
            dy
        },
    )
}

/// Whether the offset after the wheel has moved by the given steps is in the
/// range of an `i32`.
pub open spec fn scroll_fits(offset: (int, int), wheel_x: int, wheel_y: int) -> bool {
    &&& i32::MIN <= scroll_target(offset, wheel_x, wheel_y).0 <= i32::MAX
    &&& i32::MIN <= scroll_target(offset, wheel_x, wheel_y).1
}

/// The scroll offset of the document: how far its content is moved
/// horizontally and vertically, in backend pixels. The vertical offset is
/// never above zero.
#[derive(Clone, Copy, Debug)]
pub struct Viewport {
    dx: i32,
    dy: i32,
}

impl View for Viewport {
    type V = (int, int);

    closed spec fn view(&self) -> (int, int) {
        (self.dx as int, self.dy as int)
    }
}

impl Viewport {
    #[verifier::type_invariant]
    spec fn inv(self) -> bool {
        self.dy <= 0
    }

    /// The offset of a document that has not been scrolled.
    pub fn new() -> (viewport: Viewport)
        ensures
            viewport@ == (0int, 0int),
    {
        Viewport { dx: 0, dy: 0 }
    }

    /// The horizontal offset.
    pub fn dx(&self) -> (dx: i32)
        ensures
            dx == self@.0,
    {
        self.dx
    }

    /// The vertical offset, which is never above zero.
    pub fn dy(&self) -> (dy: i32)
        ensures
            dy == self@.1,
            dy <= 0,
    {
        proof {
            use_type_invariant(self);
        }
        self.dy
    }

    /// Tells whether the offset can be scrolled by the given steps of the
    /// mouse wheel without leaving the range of an `i32`.
    pub fn can_scroll(&self, wheel_x: i32, wheel_y: i32) -> (ok: bool)
        ensures
            ok == scroll_fits(self@, wheel_x as int, wheel_y as int),
    {
        let dx: i64 = self.dx as i64 + wheel_x as i64 * SCROLL_SPEED as i64;
        let dy: i64 = self.dy as i64 + wheel_y as i64 * SCROLL_SPEED as i64;
        i32::MIN as i64 <= dx && dx <= i32::MAX as i64 && (dy > 0 || i32::MIN as i64 <= dy)
    }

    /// Scrolls by the given steps of the mouse wheel.
    pub fn scroll(&mut self, wheel_x: i32, wheel_y: i32)
        requires
            scroll_fits(old(self)@, wheel_x as int, wheel_y as int),
        ensures
            final(self)@ == scroll_target(old(self)@, wheel_x as int, wheel_y as int),
            final(self)@.1 <= 0,
    {
        let dx: i64 = self.dx as i64 + wheel_x as i64 * SCROLL_SPEED as i64;
        let dy: i64 = self.dy as i64 + wheel_y as i64 * SCROLL_SPEED as i64;
        let dy: i64 = if dy > 0 {
            0
        } else {
            dy
        };
        self.dy = dy as i32;
        self.dx = dx as i32;
    }
}

/// The state of the layout engine.
pub struct RendererContext {
    scaling_factor: u32,
    images: StringHashMap<Vec<u8>>,
    viewport: Viewport,
    hit_map: Vec<HitRegion>,
    color_scheme: ColorScheme,
    indices: (u32, u32),
    active_style: FontStyle,
}

impl View for RendererContext {
    type V = ContextView;

    closed spec fn view(&self) -> ContextView {
        ContextView {
            scaling_factor: self.scaling_factor,
            images: self.images@.map_values(|bytes: Vec<u8>| bytes@),
            viewport: self.viewport@,
            hit_map: self.hit_map@,
            color_scheme: self.color_scheme,
            indices: (self.indices.0 as int, self.indices.1 as int),
            active_style: self.active_style,
        }
    }
}

impl RendererContext {
    /// A context at rest: nothing scrolled, nothing fetched, nothing laid
    /// out.
    pub fn new(scaling_factor: u32, color_scheme: ColorScheme) -> (context: RendererContext)
        ensures
            context@ == ContextView::initial(scaling_factor, color_scheme),
    {
        let context = RendererContext {
            scaling_factor,
            images: StringHashMap::new(),
            viewport: Viewport::new(),
            hit_map: Vec::new(),
            color_scheme,
            indices: (0, 0),
            active_style: FontStyle { bold: false, underline: false },
        };
        assert(context@.images =~= Map::empty());
        context
    }

    /// Backend pixels per logical unit.
    pub fn scaling_factor(&self) -> (factor: u32)
        ensures
            factor == self@.scaling_factor,
    {
        self.scaling_factor
    }

    /// The scroll offset. Its vertical part is never above zero.
    pub fn viewport(&self) -> (offset: (i32, i32))
        ensures
            offset.0 == self@.viewport.0,
            offset.1 == self@.viewport.1,
            offset.1 <= 0,
    {
        (self.viewport.dx(), self.viewport.dy())
    }

    /// The clickable regions of the current pass, in document order.
    pub fn hit_map(&self) -> (regions: &Vec<HitRegion>)
        ensures
            regions@ == self@.hit_map,
    {
        &self.hit_map
    }

    pub fn color_scheme(&self) -> (scheme: ColorScheme)
        ensures
            scheme == self@.color_scheme,
    {
        self.color_scheme
    }

    /// The cursor.
    pub fn indices(&self) -> (cursor: (u32, u32))
        ensures
            cursor.0 == self@.indices.0,
            cursor.1 == self@.indices.1,
    {
        self.indices
    }

    /// The style that the font is to be in.
    pub fn active_style(&self) -> (style: FontStyle)
        ensures
            style == self@.active_style,
    {
        self.active_style
    }

    /// The bytes of the image fetched from `url`, if it has been fetched.
    pub fn cached_image(&self, url: &str) -> (bytes: Option<&Vec<u8>>)
        ensures
            bytes is Some == self@.images.contains_key(url@),
            bytes matches Some(b) ==> b@ == self@.images[url@],
    {
        self.images.get(url)
    }

    /// Takes a new scaling factor, as after the window has moved to a
    /// display of another density.
    pub fn set_scaling_factor(&mut self, scaling_factor: u32)
        ensures
            final(self)@ == (ContextView { scaling_factor, ..old(self)@ }),
    {
        self.scaling_factor = scaling_factor;
    }

    /// Tells whether the document can be scrolled by the given steps of the
    /// mouse wheel without the offset leaving the range of an `i32`.
    pub fn can_scroll(&self, wheel_x: i32, wheel_y: i32) -> (ok: bool)
        ensures
            ok == scroll_fits(self@.viewport, wheel_x as int, wheel_y as int),
    {
        self.viewport.can_scroll(wheel_x, wheel_y)
    }

    /// Scrolls by the given steps of the mouse wheel.
    pub fn scroll(&mut self, wheel_x: i32, wheel_y: i32)
        requires
            scroll_fits(old(self)@.viewport, wheel_x as int, wheel_y as int),
        ensures
            final(self)@ == old(self)@.scrolled(wheel_x as int, wheel_y as int),
            final(self)@.viewport.1 <= 0,
    {
        self.viewport.scroll(wheel_x, wheel_y);
    }

    /// Finds the region that a click at the given window coordinates goes
    /// to: the first region of the table that covers the point, which is the
    /// coordinates times the scaling factor.
    pub fn click(&self, x: i32, y: i32) -> (hit: Option<usize>)
        ensures
            match hit {
                Some(index) => is_first_hit(
                    self@.hit_map,
                    self@.click_point(x, y).0,
                    self@.click_point(x, y).1,
                    index as int,
                ),
                None => misses_all(
                    self@.hit_map,
                    self@.click_point(x, y).0,
                    self@.click_point(x, y).1,
                ),
            },
    {
        let factor = self.scaling_factor as i64;
        assert(i64::MIN <= x * factor <= i64::MAX && i64::MIN <= y * factor <= i64::MAX)
            by (nonlinear_arith)
            requires
                i32::MIN <= x <= i32::MAX,
                i32::MIN <= y <= i32::MAX,
                0 <= factor <= u32::MAX,
        ;
        hit_test(&self.hit_map, x as i64 * factor, y as i64 * factor)
    }

    /// Makes the context ready for a pass.
    pub(crate) fn begin_pass(&mut self)
        ensures
            final(self)@ == old(self)@.begun(),
    {
        self.hit_map.clear();
        self.indices = (0, 0);
        self.active_style = FontStyle { bold: false, underline: false };
    }

    /// Puts the font in the given style.
    pub(crate) fn set_active_style(&mut self, style: FontStyle)
        ensures
            final(self)@ == old(self)@.styled(style),
    {
        self.active_style = style;
    }

    /// Keeps the bytes of an image that has been fetched from `url`.
    pub(crate) fn cache_image(&mut self, url: String, bytes: Vec<u8>)
        ensures
            final(self)@ == old(self)@.caching(url@, bytes@),
    {
        self.images.insert(url, bytes);
        assert(self@.images =~= old(self)@.images.insert(url@, bytes@));
    }

    /// Moves the cursor down by one line, if that leaves it in range.
    pub(crate) fn line_break(&mut self) -> (done: bool)
        ensures
            done == (old(self)@.indices.1 + old(self)@.line_height() <= u32::MAX),
            done ==> final(self)@ == old(self)@.broken(),
            !done ==> final(self)@ == old(self)@,
    {
        let factor = self.scaling_factor;
        assert(LINE_HEIGHT * factor <= 12 * u32::MAX) by (nonlinear_arith)
            requires
                LINE_HEIGHT == 12,
                factor <= u32::MAX,
        ;
        let y: u64 = self.indices.1 as u64 + LINE_HEIGHT as u64 * factor as u64;
        if y > u32::MAX as u64 {
            return false;
        }
        self.indices = (self.indices.0, y as u32);
        true
    }

    /// Places a box of the given size, `depth` levels below the root, if
    /// that leaves the cursor in range: appends its region and moves the
    /// cursor to its indent and below it.
    pub(crate) fn place(&mut self, depth: usize, width: u32, height: u32, action: ClickAction) -> (region:
        Option<HitRegion>)
        ensures
            region is Some == old(self)@.can_place(depth as nat, height as int),
            region matches Some(r) ==> {
                &&& r == old(self)@.region_at(depth as nat, width, height, action)
                &&& final(self)@ == old(self)@.placed(depth as nat, width, height, action)
            },
            region is None ==> final(self)@ == old(self)@,
    {
        let factor = self.scaling_factor;
        assert(INDENT_STEP * factor <= 12 * u32::MAX) by (nonlinear_arith)
            requires
                INDENT_STEP == 12,
                factor <= u32::MAX,
        ;
        let step: u64 = INDENT_STEP as u64 * factor as u64;
        assert(depth * step <= u128::MAX) by (nonlinear_arith)
            requires
                depth <= u64::MAX,
                step <= 12 * u32::MAX,
        ;
        let indent: u128 = depth as u128 * step as u128;
        assert(indent == self@.indent_of(depth as nat)) by (nonlinear_arith)
            requires
                indent == depth * step,
                step == INDENT_STEP * self.scaling_factor,
                self@.indent_of(depth as nat) == depth * INDENT_STEP * self.scaling_factor,
        ;
        let y: u64 = self.indices.1 as u64 + height as u64;
        if indent > u32::MAX as u128 || y > u32::MAX as u64 {
            return None;
        }
        let region = HitRegion {
            x: indent as i64 + self.viewport.dx() as i64,
            y: self.indices.1 as i64 + self.viewport.dy() as i64,
            width,
            height,
            action,
        };
        self.hit_map.push(region);
        self.indices = (indent as u32, y as u32);
        Some(region)
    }
}


/// Where an offset ends up after the wheel has moved several times, each
/// time by the given steps.
pub open spec fn scroll_all(offset: (int, int), wheel: Seq<(int, int)>) -> (int, int)
    decreases wheel.len(),
{
    if wheel.len() == 0 {
        offset
    } else {
        scroll_target(scroll_all(offset, wheel.drop_last()), wheel.last().0, wheel.last().1)
    }
}

/// The sum of the horizontal steps of several movements of the wheel.
pub open spec fn horizontal_steps(wheel: Seq<(int, int)>) -> int
    decreases wheel.len(),
{
    if wheel.len() == 0 {
        0
    } else {
        horizontal_steps(wheel.drop_last()) + wheel.last().0
    }
}

/// However the wheel moves, the document is never scrolled to above its top:
/// after at least one movement the vertical offset is zero or below, and it
/// stays so if it was so before.
pub proof fn lemma_scroll_stops_at_top(offset: (int, int), wheel: Seq<(int, int)>)
    requires
        offset.1 <= 0 || wheel.len() > 0,
    ensures
        scroll_all(offset, wheel).1 <= 0,
    decreases wheel.len(),
{
    if wheel.len() > 1 {
        lemma_scroll_stops_at_top(offset, wheel.drop_last());
    }
}

/// Nothing holds the horizontal offset back: it moves by the sum of the
/// horizontal steps, each times the scroll speed.
pub proof fn lemma_scroll_sideways_is_free(offset: (int, int), wheel: Seq<(int, int)>)
    ensures
        scroll_all(offset, wheel).0 == offset.0 + horizontal_steps(wheel) * SCROLL_SPEED,
    decreases wheel.len(),
{
    if wheel.len() > 0 {
        lemma_scroll_sideways_is_free(offset, wheel.drop_last());
        assert((horizontal_steps(wheel.drop_last()) + wheel.last().0) * SCROLL_SPEED
            == horizontal_steps(wheel.drop_last()) * SCROLL_SPEED + wheel.last().0 * SCROLL_SPEED)
            by (nonlinear_arith);
    }
}

} // verus!
