//! Rendering-independent presentation state and coordinate calculations.
//! Coordinates, radii, fractions and moments count millionths.
use crate::measure::{self, Number};
use vstd::prelude::*;

verus! {

#[derive(Debug, Clone, Copy, PartialEq, Eq, Structural)]
pub enum Effect {
    Spotlight,
    Laser,
    Magnify,
    /// Two holds: the first aims and fixes the start corner on release, the
    /// second drags to the opposite corner. The rectangle then stays until a
    /// page turn, a new rectangle, an effect switch or hide.
    Box,
}

impl Default for Effect {
    fn default() -> (effect: Self)
        ensures
            effect == Effect::Spotlight,
    {
        Effect::Spotlight
    }
}

#[derive(Debug, Clone, Copy, PartialEq, Eq, Structural)]
pub struct Point {
    pub x: i64,
    pub y: i64,
}

#[derive(Debug, Clone, Copy, PartialEq, Eq, Structural)]
pub struct Rect {
    pub x: i64,
    pub y: i64,
    pub width: u64,
    pub height: u64,
}

/// The smaller of two coordinates.
pub open spec fn lower(a: i64, b: i64) -> i64 {
    if a <= b {
        a
    } else {
        b
    }
}

/// How far two coordinates lie apart.
pub open spec fn distance(a: i64, b: i64) -> u64 {
    if a <= b {
        (b - a) as u64
    } else {
        (a - b) as u64
    }
}

fn apart(a: i64, b: i64) -> (gap: u64)
    ensures
        gap == distance(a, b),
{
    let gap: i128 = b as i128 - a as i128;
    if gap >= 0 {
        gap as u64
    } else {
        (-gap) as u64
    }
}

/// The rectangle that two opposite corners span.
pub open spec fn spanned(a: Point, b: Point) -> Rect {
    Rect {
        x: lower(a.x, b.x),
        y: lower(a.y, b.y),
        width: distance(a.x, b.x),
        height: distance(a.y, b.y),
    }
}

/// A rectangle holds its top and left edge, not its bottom and right one.
pub open spec fn holds(rect: Rect, point: Point) -> bool {
    &&& rect.x <= point.x < rect.x + rect.width
    &&& rect.y <= point.y < rect.y + rect.height
}

/// The open intervals of both axes overlap.
pub open spec fn overlap(a: Rect, b: Rect) -> bool {
    &&& a.x < b.x + b.width
    &&& b.x < a.x + a.width
    &&& a.y < b.y + b.height
    &&& b.y < a.y + a.height
}

/// Whether an interval starts before another ends.
fn before_end(start: i64, other: i64, length: u64) -> (before: bool)
    ensures
        before == (start < other + length),
{
    (start as i128) < other as i128 + length as i128
}

impl Rect {
    /// Rectangle spanned by two opposite corners, in either order.
    pub fn spanning(a: Point, b: Point) -> (rect: Self)
        ensures
            rect == spanned(a, b),
    {
        Self {
            x: if a.x <= b.x {
                a.x
            } else {
                b.x
            },
            y: if a.y <= b.y {
                a.y
            } else {
                b.y
            },
            width: apart(a.x, b.x),
            height: apart(a.y, b.y),
        }
    }

    pub fn intersects(self, other: Rect) -> (intersects: bool)
        ensures
            intersects == overlap(self, other),
    {
        before_end(self.x, other.x, other.width) && before_end(other.x, self.x, self.width)
            && before_end(self.y, other.y, other.height) && before_end(
            other.y,
            self.y,
            self.height,
        )
    }

    /// The point in the rectangle's own coordinates, where it lies in it.
    pub fn local_point(self, point: Point) -> (local: Option<Point>)
        requires
            self.width <= i64::MAX,
            self.height <= i64::MAX,
        ensures
            local == (if holds(self, point) {
                Some(Point { x: (point.x - self.x) as i64, y: (point.y - self.y) as i64 })
            } else {
                None
            }),
    {
        if point.x >= self.x && point.y >= self.y && before_end(point.x, self.x, self.width)
            && before_end(point.y, self.y, self.height) {
            Some(Point { x: point.x - self.x, y: point.y - self.y })
        } else {
            None
        }
    }
}

pub const DEFAULT_RADIUS: u64 = 150_000_000;

pub const MIN_RADIUS: u64 = 40_000_000;

pub const MAX_RADIUS: u64 = 500_000_000;

pub fn clamp_radius(radius: Number) -> (clamped: u64)
    ensures
        clamped == measure::clamped(radius, MIN_RADIUS, MAX_RADIUS, DEFAULT_RADIUS),
{
    measure::clamp(radius, MIN_RADIUS, MAX_RADIUS, DEFAULT_RADIUS)
}

/// A radius multiplied by a factor, to the nearest millionth, in the usable range.
pub open spec fn resized(radius: u64, factor: Number) -> u64 {
    match factor {
        Number::NotFinite => DEFAULT_RADIUS,
        Number::Finite(factor) => {
            let scaled = (radius * factor + 500_000) / 1_000_000int;
            if scaled < MIN_RADIUS {
                MIN_RADIUS
            } else if scaled > MAX_RADIUS {
                MAX_RADIUS
            } else {
                scaled as u64
            }
        },
    }
}

#[derive(Debug, Clone, Copy, PartialEq, Eq, Structural)]
pub struct Presentation {
    pub effect: Effect,
    pub radius: u64,
    pub shade: u64,
    pub zoom: u64,
    /// Full black screen on every display, independent of pointer effects.
    pub blackout: bool,
    pub manual: bool,
    pub preview_until: Option<i64>,
    /// Brief confirmation after switching effects, independent of manual mode.
    pub flash_until: Option<i64>,
    pub remote_held: bool,
    /// The present hold was cancelled; it shows nothing until it is released.
    pub remote_suppressed: bool,
    pub box_aiming: bool,
    pub box_anchor: Option<Point>,
    pub box_rect: Option<Rect>,
}

/// What the Box effect currently shows.
#[derive(Debug, Clone, Copy, PartialEq, Eq, Structural)]
pub enum BoxView {
    /// First hold: the pointer is choosing the start corner.
    Aim(Point),
    /// Start corner fixed, waiting for the second hold.
    Anchor(Point),
    /// Being dragged (second hold) or kept after release.
    Rect(Rect),
}

/// Smaller drags are treated as an accidental press, not a rectangle.
pub const MIN_BOX_SIDE: u64 = 8_000_000;

/// Width and height of the rectangle shown when switching to Box.
pub const SAMPLE_WIDTH: u64 = 240_000_000;

pub const SAMPLE_HEIGHT: u64 = 150_000_000;

/// A deadline lies ahead.
pub open spec fn pending(deadline: Option<i64>, now: i64) -> bool {
    deadline matches Some(deadline) && now < deadline
}

fn ahead(deadline: Option<i64>, now: i64) -> (ahead: bool)
    ensures
        ahead == pending(deadline, now),
{
    match deadline {
        Some(deadline) => now < deadline,
        None => false,
    }
}

impl Presentation {
    /// Only a present hold is suppressed, and aiming, a start corner and a kept
    /// rectangle exclude one another.
    pub open spec fn wf(self) -> bool {
        &&& self.remote_suppressed ==> self.remote_held
        &&& self.box_aiming ==> self.box_anchor is None && self.box_rect is None
        &&& self.box_anchor is Some ==> self.box_rect is None
    }

    /// A hold that shows the effect.
    pub open spec fn held(self) -> bool {
        self.remote_held && !self.remote_suppressed
    }

    pub open spec fn is_active(self, now: i64) -> bool {
        ||| self.manual
        ||| pending(self.preview_until, now)
        ||| pending(self.flash_until, now)
        ||| self.held()
        ||| self.effect == Effect::Box && self.boxed()
    }

    /// A start corner or a rectangle is kept.
    pub open spec fn boxed(self) -> bool {
        self.box_rect is Some || self.box_anchor is Some
    }

    pub open spec fn without_box(self) -> Self {
        Presentation { box_aiming: false, box_anchor: None, box_rect: None, ..self }
    }

    pub open spec fn hidden(self) -> Self {
        Presentation {
            flash_until: None,
            blackout: false,
            manual: false,
            preview_until: None,
            remote_suppressed: self.remote_held,
            ..self.without_box()
        }
    }

    pub open spec fn flashed(self, now: i64, seconds: i64) -> Self {
        Presentation { flash_until: Some(measure::later(now, seconds)), ..self }
    }

    pub open spec fn previewed(self, now: i64, seconds: i64) -> Self {
        Presentation {
            manual: false,
            remote_suppressed: self.remote_held,
            preview_until: Some(measure::later(now, seconds)),
            ..self
        }
    }

    pub open spec fn toggled(self, now: i64) -> Self {
        if self.is_active(now) {
            self.hidden()
        } else {
            Presentation { preview_until: None, manual: true, ..self }
        }
    }

    pub open spec fn with_remote(self, held: bool) -> Self {
        Presentation {
            remote_held: held,
            remote_suppressed: held && self.remote_suppressed,
            ..self
        }
    }

    pub open spec fn box_begun(self) -> Self {
        if self.effect == Effect::Box && self.box_anchor is None {
            Presentation { box_rect: None, box_aiming: true, ..self }
        } else {
            self
        }
    }

    pub open spec fn box_finished(self, pointer: Point) -> Self {
        if self.effect != Effect::Box {
            self
        } else if self.box_aiming {
            Presentation { box_aiming: false, box_anchor: Some(pointer), ..self }
        } else {
            match self.box_anchor {
                Some(anchor) => {
                    let rect = spanned(anchor, pointer);
                    Presentation {
                        box_anchor: None,
                        box_rect: if rect.width >= MIN_BOX_SIDE && rect.height >= MIN_BOX_SIDE {
                            Some(rect)
                        } else {
                            self.box_rect
                        },
                        ..self
                    }
                },
                None => self,
            }
        }
    }

    pub open spec fn shown_box(self, pointer: Point, now: i64) -> Option<BoxView> {
        if self.box_aiming && self.held() {
            Some(BoxView::Aim(pointer))
        } else if let Some(anchor) = self.box_anchor {
            if self.held() {
                Some(BoxView::Rect(spanned(anchor, pointer)))
            } else {
                Some(BoxView::Anchor(anchor))
            }
        } else if let Some(rect) = self.box_rect {
            Some(BoxView::Rect(rect))
        } else if pending(self.flash_until, now) || pending(self.preview_until, now) {
            Some(
                BoxView::Rect(
                    Rect {
                        x: (pointer.x - SAMPLE_WIDTH / 2) as i64,
                        y: (pointer.y - SAMPLE_HEIGHT / 2) as i64,
                        width: SAMPLE_WIDTH,
                        height: SAMPLE_HEIGHT,
                    },
                ),
            )
        } else {
            None
        }
    }

    pub fn active(&self, now: i64) -> (active: bool)
        ensures
            active == self.is_active(now),
    {
        self.manual || self.previewing(now) || self.flashing(now) || (self.remote_held
            && !self.remote_suppressed) || (self.effect == Effect::Box && (self.box_rect.is_some()
            || self.box_anchor.is_some()))
    }

    fn previewing(&self, now: i64) -> (previewing: bool)
        ensures
            previewing == pending(self.preview_until, now),
    {
        ahead(self.preview_until, now)
    }

    fn flashing(&self, now: i64) -> (flashing: bool)
        ensures
            flashing == pending(self.flash_until, now),
    {
        ahead(self.flash_until, now)
    }

    /// Show the current effect briefly so a switch is visible.
    pub fn flash(&mut self, now: i64, seconds: i64)
        ensures
            *final(self) == old(self).flashed(now, seconds),
            old(self).wf() ==> final(self).wf(),
    {
        self.flash_until = Some(measure::moment_after(now, seconds));
    }

    /// Top button pressed. Without a start corner this begins aiming (and
    /// drops any kept rectangle); with one it begins dragging the rectangle.
    pub fn begin_box(&mut self, _pointer: Point)
        ensures
            *final(self) == old(self).box_begun(),
            old(self).wf() ==> final(self).wf(),
    {
        if self.effect != Effect::Box {
            return;
        }
        if self.box_anchor.is_none() {
            self.box_rect = None;
            self.box_aiming = true;
        }
    }

    /// Top button released: fix the start corner, or finish the rectangle.
    /// A click-sized rectangle cancels instead of leaving a sliver.
    pub fn finish_box(&mut self, pointer: Point)
        ensures
            *final(self) == old(self).box_finished(pointer),
            old(self).wf() ==> final(self).wf(),
    {
        if self.effect != Effect::Box {
            return;
        }
        if self.box_aiming {
            self.box_aiming = false;
            self.box_anchor = Some(pointer);
        } else if let Some(anchor) = self.box_anchor {
            self.box_anchor = None;
            let rect = Rect::spanning(anchor, pointer);
            if rect.width >= MIN_BOX_SIDE && rect.height >= MIN_BOX_SIDE {
                self.box_rect = Some(rect);
            }
        }
    }

    pub fn clear_box(&mut self)
        ensures
            *final(self) == old(self).without_box(),
            old(self).wf() ==> final(self).wf(),
    {
        self.box_aiming = false;
        self.box_anchor = None;
        self.box_rect = None;
    }

    pub fn has_box(&self) -> (has: bool)
        ensures
            has == self.boxed(),
    {
        self.box_rect.is_some() || self.box_anchor.is_some()
    }

    pub fn box_view(&self, pointer: Point, now: i64) -> (view: Option<BoxView>)
        requires
            pointer.x >= i64::MIN + SAMPLE_WIDTH / 2,
            pointer.y >= i64::MIN + SAMPLE_HEIGHT / 2,
        ensures
            view == self.shown_box(pointer, now),
    {
        let held = self.remote_held && !self.remote_suppressed;
        if self.box_aiming && held {
            return Some(BoxView::Aim(pointer));
        }
        if let Some(anchor) = self.box_anchor {
            return Some(
                if held {
                    BoxView::Rect(Rect::spanning(anchor, pointer))
                } else {
                    BoxView::Anchor(anchor)
                },
            );
        }
        if let Some(rect) = self.box_rect {
            return Some(BoxView::Rect(rect));
        }
        // Nothing drawn yet: a sample rectangle confirms a switch or preview.
        if self.flashing(now) || self.previewing(now) {
            Some(
                BoxView::Rect(
                    Rect {
                        x: pointer.x - (SAMPLE_WIDTH / 2) as i64,
                        y: pointer.y - (SAMPLE_HEIGHT / 2) as i64,
                        width: SAMPLE_WIDTH,
                        height: SAMPLE_HEIGHT,
                    },
                ),
            )
        } else {
            None
        }
    }

    pub fn toggle(&mut self, now: i64)
        ensures
            *final(self) == old(self).toggled(now),
            old(self).wf() ==> final(self).wf(),
    {
        if self.active(now) {
            self.hide_now();
        } else {
            self.preview_until = None;
            self.manual = true;
        }
    }

    pub fn preview(&mut self, now: i64, seconds: i64)
        ensures
            *final(self) == old(self).previewed(now, seconds),
            old(self).wf() ==> final(self).wf(),
    {
        self.manual = false;
        self.remote_suppressed = self.remote_held;
        self.preview_until = Some(measure::moment_after(now, seconds));
    }

    /// Ends every activation, the box and the black screen at once.
    pub fn hide_now(&mut self)
        ensures
            *final(self) == old(self).hidden(),
            old(self).wf() ==> final(self).wf(),
    {
        self.flash_until = None;
        self.clear_box();
        self.blackout = false;
        self.manual = false;
        self.preview_until = None;
        self.remote_suppressed = self.remote_held;
    }

    pub fn set_remote_held(&mut self, held: bool)
        ensures
            *final(self) == old(self).with_remote(held),
            old(self).wf() ==> final(self).wf(),
    {
        self.remote_held = held;
        if !held {
            self.remote_suppressed = false;
        }
    }

    pub fn resize(&mut self, factor: Number)
        ensures
            *final(self) == (Presentation { radius: resized(old(self).radius, factor), ..*old(
                self,
            ) }),
            old(self).wf() ==> final(self).wf(),
    {
        self.radius = match factor {
            Number::NotFinite => DEFAULT_RADIUS,
            Number::Finite(factor) => {
                proof {
                    let radius = self.radius;
                    assert(i128::MIN < radius * factor < i128::MAX - 1_000_000)
                        by (nonlinear_arith)
                        requires
                            0 <= radius <= 0xffff_ffff_ffff_ffff,
                            -0x8000_0000_0000_0000 <= factor <= 0x7fff_ffff_ffff_ffff,
                    ;
                }
                let product: i128 = self.radius as i128 * factor as i128 + 500_000;
                if product < 0 {
                    MIN_RADIUS
                } else {
                    let scaled: i128 = product / 1_000_000;
                    if scaled < MIN_RADIUS as i128 {
                        MIN_RADIUS
                    } else if scaled > MAX_RADIUS as i128 {
                        MAX_RADIUS
                    } else {
                        scaled as u64
                    }
                }
            },
        };
    }
}

impl Default for Presentation {
    fn default() -> (presentation: Self)
        ensures
            presentation == initial(),
            presentation.wf(),
    {
        Self {
            effect: Effect::Spotlight,
            radius: DEFAULT_RADIUS,
            shade: 600_000,
            zoom: 2_000_000,
            blackout: false,
            manual: false,
            preview_until: None,
            flash_until: None,
            remote_held: false,
            remote_suppressed: false,
            box_aiming: false,
            box_anchor: None,
            box_rect: None,
        }
    }
}

/// Nothing shown, nothing held.
pub open spec fn initial() -> Presentation {
    Presentation {
        effect: Effect::Spotlight,
        radius: DEFAULT_RADIUS,
        shade: 600_000,
        zoom: 2_000_000,
        blackout: false,
        manual: false,
        preview_until: None,
        flash_until: None,
        remote_held: false,
        remote_suppressed: false,
        box_aiming: false,
        box_anchor: None,
        box_rect: None,
    }
}

/// Hiding cancels every activation, the black screen and the box, at every moment.
pub proof fn hide_cancels_every_activation(shown: Presentation, now: i64)
    ensures
        !shown.hidden().is_active(now),
        !shown.hidden().blackout,
        !shown.hidden().boxed(),
{
}

/// A hold that was cancelled shows nothing, however often it is reported, until it
/// is released; the next hold shows again.
pub proof fn a_cancelled_hold_stays_cancelled_until_release(shown: Presentation, now: i64)
    ensures
        !shown.hidden().with_remote(shown.remote_held).is_active(now),
        shown.remote_held ==> !shown.hidden().with_remote(true).with_remote(true).is_active(now),
        shown.hidden().with_remote(false).with_remote(true).is_active(now),
{
}

/// A hold shows the effect at every moment until it is released, however long
/// nothing moves; the release ends that, and only that.
pub proof fn a_hold_lasts_until_release(shown: Presentation, now: i64)
    ensures
        shown.held() ==> shown.is_active(now),
        !shown.with_remote(false).held(),
        shown.with_remote(false) == (Presentation {
            remote_held: false,
            remote_suppressed: false,
            ..shown
        }),
{
}

/// Toggling an active presentation hides it; toggling an inactive one shows it for good.
pub proof fn toggle_changes_whether_it_is_shown(shown: Presentation, now: i64, moment: i64)
    ensures
        shown.is_active(now) ==> !shown.toggled(now).is_active(moment),
        !shown.is_active(now) ==> shown.toggled(now).is_active(moment),
{
}

/// A preview of a hidden presentation shows it exactly until the deadline.
pub proof fn a_preview_expires(shown: Presentation, now: i64, seconds: i64, moment: i64)
    ensures
        shown.hidden().previewed(now, seconds).is_active(moment) == (moment < measure::later(
            now,
            seconds,
        )),
{
}

/// A flash shows a presentation until its deadline and leaves every other reason
/// to show it as it was.
pub proof fn a_flash_only_adds(shown: Presentation, now: i64, seconds: i64, moment: i64)
    ensures
        moment < measure::later(now, seconds) ==> shown.flashed(now, seconds).is_active(moment),
        moment >= measure::later(now, seconds) ==> shown.flashed(now, seconds).is_active(moment)
            == (Presentation { flash_until: None, ..shown }).is_active(moment),
        shown.flashed(now, seconds).manual == shown.manual,
{
}

/// Pressing and releasing the top button leaves the black screen and manual mode alone.
pub proof fn the_top_button_leaves_black_screen_and_manual_mode(shown: Presentation, held: bool)
    ensures
        shown.with_remote(held).blackout == shown.blackout,
        shown.with_remote(held).manual == shown.manual,
        shown.manual ==> forall|now: i64| shown.with_remote(held).is_active(now),
{
}

/// Two holds draw a box: the first release fixes the start corner, the second the
/// opposite one, and the box stays, unless it is click-sized.
pub proof fn a_box_takes_two_holds(
    shown: Presentation,
    aim: Point,
    start: Point,
    end: Point,
    now: i64,
)
    requires
        shown.effect == Effect::Box,
        shown.wf(),
        shown.box_anchor is None,
        !shown.remote_held,
    ensures
        ({
            let aiming = shown.with_remote(true).box_begun();
            let fixed = aiming.box_finished(start).with_remote(false);
            let dragging = fixed.with_remote(true).box_begun();
            let kept = dragging.box_finished(end).with_remote(false);
            let rect = spanned(start, end);
            &&& aiming.shown_box(aim, now) == Some(BoxView::Aim(aim))
            &&& fixed.shown_box(aim, now) == Some(BoxView::Anchor(start))
            &&& fixed.is_active(now)
            &&& dragging.shown_box(end, now) == Some(BoxView::Rect(rect))
            &&& if rect.width >= MIN_BOX_SIDE && rect.height >= MIN_BOX_SIDE {
                &&& kept.shown_box(aim, now) == Some(BoxView::Rect(rect))
                &&& kept.is_active(now)
            } else {
                !kept.boxed()
            }
        }),
{
}

/// Outside box mode no press and no release changes the presentation.
pub proof fn only_box_mode_draws_boxes(shown: Presentation, pointer: Point)
    requires
        shown.effect != Effect::Box,
    ensures
        shown.box_begun() == shown,
        shown.box_finished(pointer) == shown,
{
}

/// A box drawn before a hide is gone, also when the hold is released later.
pub proof fn hide_ends_a_drag(shown: Presentation, pointer: Point)
    ensures
        !shown.hidden().box_finished(pointer).with_remote(false).boxed(),
{
}

/// Every resize leaves the radius in the usable range.
pub proof fn the_radius_stays_in_the_usable_range(radius: u64, factor: Number)
    ensures
        MIN_RADIUS <= resized(radius, factor) <= MAX_RADIUS,
{
}

/// The rectangle of two corners does not depend on their order, and reaches both.
pub proof fn corners_come_in_either_order(a: Point, b: Point)
    ensures
        spanned(a, b) == spanned(b, a),
        spanned(a, b).x <= a.x <= spanned(a, b).x + spanned(a, b).width,
        spanned(a, b).x <= b.x <= spanned(a, b).x + spanned(a, b).width,
        spanned(a, b).y <= a.y <= spanned(a, b).y + spanned(a, b).height,
        spanned(a, b).y <= b.y <= spanned(a, b).y + spanned(a, b).height,
{
}

/// Screens that share a point overlap, so that a common edge belongs to one of them;
/// and overlapping is mutual.
pub proof fn screens_that_share_a_point_overlap(first: Rect, second: Rect, point: Point)
    ensures
        holds(first, point) && holds(second, point) ==> overlap(first, second),
        overlap(first, second) == overlap(second, first),
{
}

/// Two rectangles of positive size intersect exactly where some point lies in both, and
/// rectangles that lie beside, above or below one another do not, even where their edges
/// touch.
pub proof fn rectangles_overlap_only_where_they_share_a_point(first: Rect, second: Rect)
    requires
        first.width > 0,
        first.height > 0,
        second.width > 0,
        second.height > 0,
    ensures
        overlap(first, second) ==> {
            let x = if first.x >= second.x {
                first.x
            } else {
                second.x
            };
            let y = if first.y >= second.y {
                first.y
            } else {
                second.y
            };
            &&& first.x <= x < first.x + first.width && first.y <= y < first.y + first.height
            &&& second.x <= x < second.x + second.width && second.y <= y < second.y + second.height
        },
        first.x + first.width <= second.x ==> !overlap(first, second),
        second.x + second.width <= first.x ==> !overlap(first, second),
        first.y + first.height <= second.y ==> !overlap(first, second),
        second.y + second.height <= first.y ==> !overlap(first, second),
        first.x + first.width > second.x && second.x + second.width > first.x && first.y
            + first.height > second.y && second.y + second.height > first.y ==> overlap(
            first,
            second,
        ),
{
}

/// A rectangle holds its first corner and the point before its last one, none beyond any
/// of its four edges, and nothing where it is empty. Of two displays side by side, or one
/// above the other, exactly one holds each point of both.
pub proof fn a_rectangle_holds_what_lies_within(rect: Rect, point: Point, next: Rect)
    ensures
        point.x < rect.x || point.y < rect.y ==> !holds(rect, point),
        point.x >= rect.x + rect.width || point.y >= rect.y + rect.height ==> !holds(rect, point),
        rect.x <= point.x < rect.x + rect.width && rect.y <= point.y < rect.y + rect.height
            ==> holds(rect, point),
        next.x == rect.x + rect.width && next.y == rect.y && next.height == rect.height ==> !(holds(
            rect,
            point,
        ) && holds(next, point)),
        next.y == rect.y + rect.height && next.x == rect.x && next.width == rect.width ==> !(holds(
            rect,
            point,
        ) && holds(next, point)),
{
}

/// The rectangle of two corners has no room beside them: its sides are the distances of
/// the corners, and one corner lies at its start on each axis.
pub proof fn a_spanned_rectangle_fits_its_corners(a: Point, b: Point)
    ensures
        spanned(a, b).x == a.x || spanned(a, b).x == b.x,
        spanned(a, b).y == a.y || spanned(a, b).y == b.y,
        a.x <= b.x ==> spanned(a, b).x == a.x && spanned(a, b).width == b.x - a.x,
        a.x >= b.x ==> spanned(a, b).x == b.x && spanned(a, b).width == a.x - b.x,
        a.y <= b.y ==> spanned(a, b).y == a.y && spanned(a, b).height == b.y - a.y,
        a.y >= b.y ==> spanned(a, b).y == b.y && spanned(a, b).height == a.y - b.y,
{
}

/// A resize by one keeps a usable radius, a larger factor never gives a smaller radius,
/// the result is the product to the nearest millionth, and what is not finite brings the
/// radius of a fresh start back.
pub proof fn a_resize_multiplies(radius: u64, factor: i64, larger: i64)
    requires
        40_000_000 <= radius <= 500_000_000,
        factor <= larger,
    ensures
        resized(radius, Number::Finite(1_000_000)) == radius,
        resized(radius, Number::Finite(factor)) <= resized(radius, Number::Finite(larger)),
        40_000_000 * 1_000_000 <= radius * factor <= 500_000_000 * 1_000_000 ==> -500_000 <= resized(
            radius,
            Number::Finite(factor),
        ) * 1_000_000 - radius * factor <= 500_000,
        radius * factor < 40_000_000 * 1_000_000 ==> resized(radius, Number::Finite(factor))
            == 40_000_000,
        radius * factor > 500_000_000 * 1_000_000 ==> resized(radius, Number::Finite(factor))
            == 500_000_000,
        resized(radius, Number::NotFinite) == 150_000_000,
{
    assert(radius * factor <= radius * larger) by (nonlinear_arith)
        requires
            0 <= radius,
            factor <= larger,
    ;
    let (low, high) = (
        (radius * factor + 500_000) / 1_000_000int,
        (radius * larger + 500_000) / 1_000_000int,
    );
    assert(low <= high);
    assert((radius * 1_000_000 + 500_000) / 1_000_000int == radius);
}

/// A presentation is shown exactly while it is shown by hand, a preview or a flash runs, an
/// uncancelled hold lasts, or, in box mode alone, a corner or a box is kept.
pub proof fn these_are_the_reasons_to_show(shown: Presentation, now: i64)
    ensures
        shown.manual ==> shown.is_active(now),
        shown.preview_until matches Some(until) ==> (now < until ==> shown.is_active(now)),
        shown.flash_until matches Some(until) ==> (now < until ==> shown.is_active(now)),
        shown.remote_held && !shown.remote_suppressed ==> shown.is_active(now),
        shown.effect == Effect::Box && (shown.box_anchor is Some || shown.box_rect is Some)
            ==> shown.is_active(now),
        !shown.manual && !(shown.preview_until matches Some(until) && now < until) && !(
        shown.flash_until matches Some(until) && now < until) && (shown.remote_held
            ==> shown.remote_suppressed) && (shown.effect != Effect::Box || (shown.box_anchor is None
            && shown.box_rect is None)) ==> !shown.is_active(now),
{
}

/// A preview or a flash ends its time after now: at every moment before that it is shown,
/// and one moment later it is not.
pub proof fn previews_and_flashes_last_their_time(
    shown: Presentation,
    now: i64,
    seconds: i64,
    moment: i64,
)
    requires
        i64::MIN <= now + seconds <= i64::MAX,
        !shown.manual,
        !shown.remote_held,
        shown.preview_until is None,
        shown.flash_until is None,
        shown.effect != Effect::Box,
    ensures
        shown.previewed(now, seconds).is_active(moment) <==> moment < now + seconds,
        shown.flashed(now, seconds).is_active(moment) <==> moment < now + seconds,
{
}

/// What each operation leaves alone: hiding keeps the effect and its measures and the hold
/// itself, showing by hand ends a preview and keeps all else, a preview ends manual mode
/// and a hold but keeps a box and the black screen, a flash keeps all else.
pub proof fn operations_change_only_what_they_are_for(
    shown: Presentation,
    now: i64,
    seconds: i64,
    held: bool,
    factor: Number,
)
    ensures
        shown.hidden() == (Presentation {
            manual: false,
            blackout: false,
            preview_until: None,
            flash_until: None,
            remote_suppressed: shown.remote_held,
            box_aiming: false,
            box_anchor: None,
            box_rect: None,
            ..shown
        }),
        !shown.is_active(now) ==> shown.toggled(now) == (Presentation {
            manual: true,
            preview_until: None,
            ..shown
        }),
        shown.previewed(now, seconds) == (Presentation {
            manual: false,
            remote_suppressed: shown.remote_held,
            preview_until: shown.previewed(now, seconds).preview_until,
            ..shown
        }),
        shown.flashed(now, seconds) == (Presentation {
            flash_until: shown.flashed(now, seconds).flash_until,
            ..shown
        }),
        shown.with_remote(held).remote_held == held,
        shown.with_remote(true) == (Presentation { remote_held: true, ..shown }),
        shown.without_box() == (Presentation {
            box_aiming: false,
            box_anchor: None,
            box_rect: None,
            ..shown
        }),
        shown.boxed() <==> shown.box_anchor is Some || shown.box_rect is Some,
{
}

/// A fresh presentation shows nothing at any moment, and its lamp is a spotlight of 150
/// points that dims its surroundings by six tenths and magnifies twice.
pub proof fn a_fresh_presentation_shows_nothing(now: i64)
    ensures
        !initial().is_active(now),
        !initial().blackout,
        !initial().remote_held,
        initial().effect == Effect::Spotlight,
        initial().radius == 150_000_000,
        initial().shade == 600_000,
        initial().zoom == 2_000_000,
        !initial().manual && !initial().remote_suppressed,
        initial().preview_until is None && initial().flash_until is None,
        !initial().box_aiming && initial().box_anchor is None && initial().box_rect is None,
{
}

/// The second release keeps a box whose sides are both eight points or more, from corner
/// to corner; a smaller one is dropped.
pub proof fn a_kept_box_measures_eight_points(shown: Presentation, start: Point, end: Point)
    requires
        shown.effect == Effect::Box,
        !shown.box_aiming,
        shown.box_anchor == Some(start),
        shown.box_rect is None,
        start.x <= end.x,
        start.y <= end.y,
    ensures
        shown.box_finished(end).box_anchor is None,
        end.x - start.x >= 8_000_000 && end.y - start.y >= 8_000_000 ==> shown.box_finished(
            end,
        ).box_rect == Some(
            Rect {
                x: start.x,
                y: start.y,
                width: (end.x - start.x) as u64,
                height: (end.y - start.y) as u64,
            },
        ),
        end.x - start.x < 8_000_000 || end.y - start.y < 8_000_000 ==> shown.box_finished(
            end,
        ).box_rect is None,
        shown.box_finished(end) == (Presentation {
            box_anchor: None,
            box_rect: shown.box_finished(end).box_rect,
            ..shown
        }),
{
}

/// A press in box mode drops a kept box and aims, unless a corner is fixed; it changes
/// nothing else. The release while aiming fixes the corner where the pointer is.
pub proof fn a_press_aims_and_a_release_fixes_the_corner(shown: Presentation, pointer: Point)
    requires
        shown.effect == Effect::Box,
    ensures
        shown.box_anchor is None ==> shown.box_begun() == (Presentation {
            box_aiming: true,
            box_rect: None,
            ..shown
        }),
        shown.box_anchor is Some ==> shown.box_begun() == shown,
        shown.box_aiming ==> shown.box_finished(pointer) == (Presentation {
            box_aiming: false,
            box_anchor: Some(pointer),
            ..shown
        }),
        !shown.box_aiming && shown.box_anchor is None ==> shown.box_finished(pointer) == shown,
{
}

/// What box mode draws: the aim under the pointer, the fixed corner, the box that is being
/// dragged, the kept one, or a sample of 240 by 150 points about the pointer while a
/// preview or a flash runs; and nothing else.
pub proof fn box_mode_draws_what_was_reached(shown: Presentation, pointer: Point, now: i64)
    requires
        shown.wf(),
        pointer.x >= i64::MIN + 120_000_000,
        pointer.y >= i64::MIN + 75_000_000,
    ensures
        ({
            let held = shown.remote_held && !shown.remote_suppressed;
            let running = (shown.preview_until matches Some(until) && now < until) || (
            shown.flash_until matches Some(until) && now < until);
            let view = shown.shown_box(pointer, now);
            &&& shown.box_aiming && held ==> view == Some(BoxView::Aim(pointer))
            &&& shown.box_anchor matches Some(corner) ==> (!held ==> view == Some(
                BoxView::Anchor(corner),
            ))
            &&& shown.box_anchor matches Some(corner) ==> (held && corner.x <= pointer.x && corner.y
                <= pointer.y ==> view == Some(
                BoxView::Rect(
                    Rect {
                        x: corner.x,
                        y: corner.y,
                        width: (pointer.x - corner.x) as u64,
                        height: (pointer.y - corner.y) as u64,
                    },
                ),
            ))
            &&& shown.box_rect matches Some(rect) ==> view == Some(BoxView::Rect(rect))
            &&& !(shown.box_aiming && held) && !shown.boxed() && running ==> view == Some(
                BoxView::Rect(
                    Rect {
                        x: (pointer.x - 120_000_000) as i64,
                        y: (pointer.y - 75_000_000) as i64,
                        width: 240_000_000,
                        height: 150_000_000,
                    },
                ),
            )
            &&& !(shown.box_aiming && held) && !shown.boxed() && !running ==> view is None
        }),
{
}

} // verus!
