//! What the native shell does at each tick and for each shortcut. The shell itself
//! draws, captures and shows; here it is decided what.
use crate::presentation::{self, BoxView, Effect, Point, Presentation, Rect};
use vstd::prelude::*;

verus! {

/// A display: its frame in points, its identifier, and pixels per point in millionths.
#[derive(Debug, Clone, Copy, PartialEq, Eq, Structural)]
pub struct Screen {
    pub frame: Rect,
    pub display_id: u32,
    pub scale: u64,
}

/// Whether the app quits: a signal came, or a demonstration has run its time.
pub open spec fn quits(signal: i32, exit_after: Option<i64>, now: i64) -> bool {
    signal != 0 || (exit_after matches Some(moment) && now >= moment)
}

pub fn quit_due(signal: i32, exit_after: Option<i64>, now: i64) -> (due: bool)
    ensures
        due == quits(signal, exit_after, now),
{
    signal != 0 || match exit_after {
        Some(moment) => now >= moment,
        None => false,
    }
}

/// Millionths of a second between two looks at the displays.
pub const SCREEN_INTERVAL: i64 = 1_000_000;

pub fn screen_check_due(now: i64, last: i64) -> (due: bool)
    ensures
        due == (now - last >= SCREEN_INTERVAL),
{
    now as i128 - last as i128 >= SCREEN_INTERVAL as i128
}

/// Whether the displays differ from those that have overlays.
pub fn screens_changed(known: &[Screen], present: &[Screen]) -> (changed: bool)
    ensures
        changed == (known@ != present@),
{
    if known.len() != present.len() {
        return true;
    }
    for i in 0..known.len()
        invariant
            known@.len() == present@.len(),
            forall|j: int| 0 <= j < i ==> known@[j] == present@[j],
    {
        if known[i] != present[i] {
            return true;
        }
    }
    assert(known@ =~= present@);
    false
}

/// A length in pixels, to the nearest one.
pub open spec fn spec_pixels(points: u64, scale: u64) -> u64 {
    let pixels = (points * scale + 500_000_000_000) / 1_000_000_000_000int;
    if pixels > u64::MAX {
        u64::MAX
    } else {
        pixels as u64
    }
}

pub fn pixels(points: u64, scale: u64) -> (pixels: u64)
    ensures
        pixels == spec_pixels(points, scale),
{
    assert(points * scale <= 0xffff_ffff_ffff_ffff * 0xffff_ffff_ffff_ffff) by (nonlinear_arith)
        requires
            points <= 0xffff_ffff_ffff_ffff,
            scale <= 0xffff_ffff_ffff_ffff,
    ;
    let pixels: u128 = (points as u128 * scale as u128 + 500_000_000_000) / 1_000_000_000_000;
    if pixels > u64::MAX as u128 {
        u64::MAX
    } else {
        pixels as u64
    }
}

/// The place of the last of the first `count` displays that hold the pointer.
pub open spec fn display_under(screens: Seq<Screen>, pointer: Point, count: nat) -> Option<int>
    decreases count,
{
    if count == 0 {
        None
    } else if presentation::holds(screens[count - 1].frame, pointer) {
        Some(count - 1)
    } else {
        display_under(screens, pointer, (count - 1) as nat)
    }
}

/// What happens to the screen capture.
#[derive(Debug, Clone, Copy, PartialEq, Eq, Structural)]
pub enum CapturePlan {
    Start { display_id: u32, width: u64, height: u64 },
    Stop,
    Keep,
}

/// Capture runs for the display under the pointer while the magnifier is shown and
/// allowed; otherwise it ends, but for a magnifier that waits for permission.
pub open spec fn capture_planned(
    active: bool,
    effect: Effect,
    allowed: bool,
    has_frame: bool,
    screens: Seq<Screen>,
    pointer: Point,
) -> CapturePlan {
    if active && effect == Effect::Magnify && allowed {
        match display_under(screens, pointer, screens.len()) {
            Some(place) => CapturePlan::Start {
                display_id: screens[place].display_id,
                width: spec_pixels(screens[place].frame.width, screens[place].scale),
                height: spec_pixels(screens[place].frame.height, screens[place].scale),
            },
            None => CapturePlan::Keep,
        }
    } else if has_frame || effect != Effect::Magnify || !active {
        CapturePlan::Stop
    } else {
        CapturePlan::Keep
    }
}

/// Whether a point lies in a rectangle.
fn contains(rect: &Rect, point: &Point) -> (inside: bool)
    ensures
        inside == presentation::holds(*rect, *point),
{
    rect.x <= point.x && (point.x as i128) < rect.x as i128 + rect.width as i128 && rect.y
        <= point.y && (point.y as i128) < rect.y as i128 + rect.height as i128
}

pub fn capture_plan(
    active: bool,
    effect: Effect,
    allowed: bool,
    has_frame: bool,
    screens: &[Screen],
    pointer: Point,
) -> (plan: CapturePlan)
    ensures
        plan == capture_planned(active, effect, allowed, has_frame, screens@, pointer),
{
    if active && effect == Effect::Magnify && allowed {
        let mut left: usize = screens.len();
        while left > 0
            invariant
                left <= screens@.len(),
                display_under(screens@, pointer, screens@.len()) == display_under(
                    screens@,
                    pointer,
                    left as nat,
                ),
            ensures
                display_under(screens@, pointer, screens@.len()) is None || left > 0,
                left > 0 ==> left <= screens@.len() && display_under(
                    screens@,
                    pointer,
                    screens@.len(),
                ) == Some(left - 1),
            decreases left,
        {
            if contains(&screens[left - 1].frame, &pointer) {
                break;
            }
            left = left - 1;
        }
        if left == 0 {
            CapturePlan::Keep
        } else {
            let screen = screens[left - 1];
            CapturePlan::Start {
                display_id: screen.display_id,
                width: pixels(screen.frame.width, screen.scale),
                height: pixels(screen.frame.height, screen.scale),
            }
        }
    } else if has_frame || effect != Effect::Magnify || !active {
        CapturePlan::Stop
    } else {
        CapturePlan::Keep
    }
}

/// Nothing is captured unless the magnifier is shown and allowed.
pub proof fn capture_needs_a_permitted_magnifier(
    active: bool,
    effect: Effect,
    allowed: bool,
    has_frame: bool,
    screens: Seq<Screen>,
    pointer: Point,
)
    ensures
        capture_planned(active, effect, allowed, has_frame, screens, pointer) is Start ==> active
            && effect == Effect::Magnify && allowed,
        !active || effect != Effect::Magnify ==> capture_planned(
            active,
            effect,
            allowed,
            has_frame,
            screens,
            pointer,
        ) == CapturePlan::Stop,
{
}

/// The pointer in the coordinates of an overlay that is shown; none for an overlay
/// that is hidden. The magnifier shows nothing before its first frame.
pub fn overlay_center(frame: Rect, pointer: Point, effect: Effect, has_frame: bool) -> (center:
    Option<Point>)
    requires
        frame.width <= i64::MAX,
        frame.height <= i64::MAX,
    ensures
        center == (if presentation::holds(frame, pointer) && (effect != Effect::Magnify
            || has_frame) {
            Some(Point { x: (pointer.x - frame.x) as i64, y: (pointer.y - frame.y) as i64 })
        } else {
            None
        }),
{
    if effect == Effect::Magnify && !has_frame {
        return None;
    }
    frame.local_point(pointer)
}

/// Whether a drawn box reaches a display.
pub open spec fn box_reaches(frame: Rect, boxed: Option<BoxView>) -> bool {
    boxed matches Some(BoxView::Rect(rect)) && presentation::overlap(rect, frame)
}

/// Whether an overlay stays up for a box though the pointer is elsewhere: a drawn box
/// is shown on every display that it reaches.
pub fn shows_box(frame: Rect, boxed: Option<BoxView>) -> (shows: bool)
    ensures
        shows == box_reaches(frame, boxed),
{
    match boxed {
        Some(BoxView::Rect(rect)) => rect.intersects(frame),
        _ => false,
    }
}

/// What an overlay draws.
#[derive(Debug, Clone, Copy, PartialEq, Eq, Structural)]
pub struct Look {
    pub effect: Effect,
    pub center: Point,
    pub radius: u64,
    pub shade: u64,
    pub zoom: u64,
}

/// Whether an overlay has to be drawn again.
pub fn needs_redraw(before: Look, now: Look, fresh_image: bool, visible: bool) -> (redraw: bool)
    ensures
        redraw == (fresh_image || before != now || !visible),
{
    fresh_image || before != now || !visible
}

/// What is said while the magnifier has no picture yet.
pub open spec fn tick_text(active: bool, effect: Effect, allowed: bool, has_frame: bool) -> Option<
    Seq<char>,
> {
    if active && effect == Effect::Magnify && !has_frame {
        Some(
            if allowed {
                "正在启动屏幕采集…"@
            } else {
                "实时放大需要屏幕录制权限；聚光和激光仍可使用。"@
            },
        )
    } else {
        None
    }
}

pub fn tick_message(active: bool, effect: Effect, allowed: bool, has_frame: bool) -> (message:
    Option<&'static str>)
    ensures
        match message {
            Some(message) => tick_text(active, effect, allowed, has_frame) == Some(message@),
            None => tick_text(active, effect, allowed, has_frame) is None,
        },
{
    if active && effect == Effect::Magnify && !has_frame {
        Some(
            if allowed {
                "正在启动屏幕采集…"
            } else {
                "实时放大需要屏幕录制权限；聚光和激光仍可使用。"
            },
        )
    } else {
        None
    }
}

pub fn capture_stopped_message(error: &str) -> (message: String)
    ensures
        message@ == "放大镜已停止："@ + error@,
{
    let mut message = "放大镜已停止：".to_owned();
    message.append(error);
    message
}

/// The effect of a menu entry; an unknown entry means the spotlight.
pub open spec fn effect_of(tag: i64) -> Effect {
    if tag == 1 {
        Effect::Laser
    } else if tag == 2 {
        Effect::Magnify
    } else if tag == 3 {
        Effect::Box
    } else {
        Effect::Spotlight
    }
}

pub fn tagged_effect(tag: i64) -> (effect: Effect)
    ensures
        effect == effect_of(tag),
{
    if tag == 1 {
        Effect::Laser
    } else if tag == 2 {
        Effect::Magnify
    } else if tag == 3 {
        Effect::Box
    } else {
        Effect::Spotlight
    }
}

/// The menu entry of an effect.
pub fn effect_tag(effect: Effect) -> (tag: i64)
    ensures
        0 <= tag < 4,
        effect_of(tag) == effect,
{
    match effect {
        Effect::Spotlight => 0,
        Effect::Laser => 1,
        Effect::Magnify => 2,
        Effect::Box => 3,
    }
}

/// The name of an effect in menus and messages.
pub open spec fn spec_effect_name(effect: Effect) -> Seq<char> {
    match effect {
        Effect::Spotlight => "聚光"@,
        Effect::Laser => "数字激光"@,
        Effect::Magnify => "实时放大"@,
        Effect::Box => "方框"@,
    }
}

pub fn effect_name(effect: Effect) -> (name: &'static str)
    ensures
        name@ == spec_effect_name(effect),
{
    match effect {
        Effect::Spotlight => "聚光",
        Effect::Laser => "数字激光",
        Effect::Magnify => "实时放大",
        Effect::Box => "方框",
    }
}

/// Switches the effect and previews it.
pub fn preview_effect(shown: &mut Presentation, effect: Effect, now: i64, seconds: i64)
    ensures
        *final(shown) == (Presentation { effect, ..*old(shown) }).previewed(now, seconds),
        old(shown).wf() ==> final(shown).wf(),
{
    shown.effect = effect;
    shown.preview(now, seconds);
}

/// The presentation after the top button was pressed or released. A report of what
/// is known changes nothing.
pub open spec fn hold_changed(shown: Presentation, down: bool, pointer: Point) -> Presentation {
    if down == shown.remote_held {
        shown
    } else if down {
        shown.with_remote(true).box_begun()
    } else {
        shown.box_finished(pointer).with_remote(false)
    }
}

pub fn apply_hold(shown: &mut Presentation, down: bool, pointer: Point)
    ensures
        *final(shown) == hold_changed(*old(shown), down, pointer),
        old(shown).wf() ==> final(shown).wf(),
{
    if down == shown.remote_held {
        return;
    }
    if down {
        shown.set_remote_held(true);
        shown.begin_box(pointer);
    } else {
        shown.finish_box(pointer);
        shown.set_remote_held(false);
    }
}

/// The end of a session never draws: a release that is reported again keeps a start
/// corner and a kept rectangle as they are.
pub proof fn repeated_releases_keep_the_box(shown: Presentation, first: Point, second: Point)
    ensures
        hold_changed(hold_changed(shown, false, first), false, second) == hold_changed(
            shown,
            false,
            first,
        ),
{
}

/// The signature of the app's shortcuts: the characters "SpRS".
pub const SHORTCUT_SIGNATURE: u32 = 0x5370_5253;

/// The shortcut of an event, where it is one of the app's.
pub fn shortcut_of(status: i32, signature: u32, id: u32) -> (shortcut: Option<u32>)
    ensures
        shortcut == (if status == 0 && signature == SHORTCUT_SIGNATURE {
            Some(id)
        } else {
            None
        }),
{
    if status == 0 && signature == SHORTCUT_SIGNATURE {
        Some(id)
    } else {
        None
    }
}

/// The presentation after a shortcut: one shows or hides, two hides at once.
pub open spec fn after_shortcut(shown: Presentation, shortcut: u32, now: i64) -> Presentation {
    if shortcut == 1 {
        shown.toggled(now)
    } else if shortcut == 2 {
        shown.hidden()
    } else {
        shown
    }
}

/// Carries a shortcut out; the answer says whether it is known.
pub fn apply_shortcut(shown: &mut Presentation, shortcut: u32, now: i64) -> (known: bool)
    ensures
        known == (shortcut == 1 || shortcut == 2),
        *final(shown) == after_shortcut(*old(shown), shortcut, now),
        old(shown).wf() ==> final(shown).wf(),
{
    if shortcut == 1 {
        shown.toggle(now);
        true
    } else if shortcut == 2 {
        shown.hide_now();
        true
    } else {
        false
    }
}

/// The emergency shortcut hides everything, whatever is shown.
pub proof fn the_emergency_shortcut_hides_everything(shown: Presentation, now: i64, moment: i64)
    ensures
        !after_shortcut(shown, 2, now).is_active(moment),
        !after_shortcut(shown, 2, now).blackout,
{
}

/// What is said after a shortcut.
pub fn shortcut_message(active: bool) -> (message: &'static str)
    ensures
        message@ == (if active {
            "效果已显示；⌃⌥⌘H 可立即隐藏。"@
        } else {
            "效果已隐藏。⌥⌘P 可再次显示。"@
        }),
{
    if active {
        "效果已显示；⌃⌥⌘H 可立即隐藏。"
    } else {
        "效果已隐藏。⌥⌘P 可再次显示。"
    }
}

/// Any signal ends the app, and so does the end of a demonstration; nothing else does.
pub proof fn the_app_runs_until_it_is_ended(signal: i32, moment: i64, now: i64)
    ensures
        signal != 0 ==> quits(signal, None, now) && quits(signal, Some(moment), now),
        !quits(0, None, now),
        quits(0, Some(moment), now) <==> moment <= now,
        SCREEN_INTERVAL == 1_000_000,
{
}

/// A length in pixels is the whole number nearest to points times pixels per point, with
/// halves going up.
pub proof fn pixels_are_rounded_to_the_nearest(points: u64, scale: u64)
    ensures
        spec_pixels(points, scale) < u64::MAX ==> {
            &&& 2 * (points * scale) < (2 * spec_pixels(points, scale) + 1) * 1_000_000_000_000
            &&& 2 * (points * scale) >= (2 * spec_pixels(points, scale) - 1) * 1_000_000_000_000
        },
        spec_pixels(points, scale) == u64::MAX ==> 2 * (points * scale) >= (2 * u64::MAX - 1)
            * 1_000_000_000_000,
{
    assert(points * scale >= 0) by (nonlinear_arith);
}

/// The pointer is on the last display that holds it: a point on the left or upper edge
/// belongs to a display, one on the right or lower edge does not.
pub proof fn the_last_display_under_the_pointer_counts(
    screens: Seq<Screen>,
    pointer: Point,
    count: nat,
    other: int,
)
    requires
        count <= screens.len(),
        0 <= other < count,
    ensures
        display_under(screens, pointer, count) matches Some(place) ==> {
            let frame = screens[place].frame;
            &&& 0 <= place < count
            &&& frame.x <= pointer.x < frame.x + frame.width
            &&& frame.y <= pointer.y < frame.y + frame.height
        },
        ({
            let frame = screens[other].frame;
            frame.x <= pointer.x < frame.x + frame.width && frame.y <= pointer.y < frame.y
                + frame.height
        }) ==> display_under(screens, pointer, count) is Some && display_under(
            screens,
            pointer,
            count,
        )->0 >= other,
    decreases count,
{
    if !presentation::holds(screens[count - 1].frame, pointer) && other < count - 1 {
        the_last_display_under_the_pointer_counts(screens, pointer, (count - 1) as nat, other);
    } else if !presentation::holds(screens[count - 1].frame, pointer) && count > 1 {
        the_last_display_under_the_pointer_counts(screens, pointer, (count - 1) as nat, 0);
    }
}

/// An allowed magnifier captures the display under the pointer, in pixels, and goes on where
/// there is none. One that waits for permission without a picture is left alone. In every
/// other case nothing is captured.
pub proof fn an_allowed_magnifier_captures_its_display(
    screens: Seq<Screen>,
    pointer: Point,
    place: int,
    has_frame: bool,
)
    ensures
        display_under(screens, pointer, screens.len()) == Some(place) ==> capture_planned(
            true,
            Effect::Magnify,
            true,
            has_frame,
            screens,
            pointer,
        ) == (CapturePlan::Start {
            display_id: screens[place].display_id,
            width: spec_pixels(screens[place].frame.width, screens[place].scale),
            height: spec_pixels(screens[place].frame.height, screens[place].scale),
        }),
        display_under(screens, pointer, screens.len()) is None ==> capture_planned(
            true,
            Effect::Magnify,
            true,
            has_frame,
            screens,
            pointer,
        ) == CapturePlan::Keep,
        capture_planned(true, Effect::Magnify, false, false, screens, pointer)
            == CapturePlan::Keep,
        capture_planned(true, Effect::Magnify, false, true, screens, pointer) == CapturePlan::Stop,
{
}

/// A drawn box is shown on every display with which it shares a point within both, and one
/// that is only begun on none.
pub proof fn a_box_is_shown_where_it_reaches(frame: Rect, drawn: Rect, other: BoxView, point: Point)
    ensures
        drawn.x < point.x < drawn.x + drawn.width && drawn.y < point.y < drawn.y + drawn.height
            && frame.x < point.x < frame.x + frame.width && frame.y < point.y < frame.y
            + frame.height ==> box_reaches(frame, Some(BoxView::Rect(drawn))),
        drawn.x + drawn.width <= frame.x || frame.x + frame.width <= drawn.x || drawn.y
            + drawn.height <= frame.y || frame.y + frame.height <= drawn.y ==> !box_reaches(
            frame,
            Some(BoxView::Rect(drawn)),
        ),
        !box_reaches(frame, None),
        !(other is Rect) ==> !box_reaches(frame, Some(other)),
{
}

/// A magnifier that is shown without a picture says why, and nothing else says anything.
pub proof fn a_magnifier_without_a_picture_says_why(
    active: bool,
    effect: Effect,
    allowed: bool,
    has_frame: bool,
)
    ensures
        tick_text(true, Effect::Magnify, true, false) == Some("正在启动屏幕采集…"@),
        tick_text(true, Effect::Magnify, false, false) == Some(
            "实时放大需要屏幕录制权限；聚光和激光仍可使用。"@,
        ),
        !active || has_frame || effect != Effect::Magnify ==> tick_text(
            active,
            effect,
            allowed,
            has_frame,
        ) is None,
{
}

/// The menu entries stand for these effects, and every other entry for the spotlight.
pub proof fn menu_entries_have_these_effects(tag: i64)
    ensures
        effect_of(0) == Effect::Spotlight,
        effect_of(1) == Effect::Laser,
        effect_of(2) == Effect::Magnify,
        effect_of(3) == Effect::Box,
        tag < 0 || tag > 3 ==> effect_of(tag) == Effect::Spotlight,
        spec_effect_name(Effect::Spotlight) == "聚光"@,
        spec_effect_name(Effect::Laser) == "数字激光"@,
        spec_effect_name(Effect::Magnify) == "实时放大"@,
        spec_effect_name(Effect::Box) == "方框"@,
{
}

/// A press is taken as held and shows the effect, a release lets it go; in box mode a press
/// aims at the start corner and a release sets a corner where the pointer is. What was not
/// asked for stays.
pub proof fn presses_and_releases_reach_the_presentation(shown: Presentation, pointer: Point)
    ensures
        ({
            let pressed = hold_changed(shown, true, pointer);
            let released = hold_changed(shown, false, pointer);
            &&& pressed.remote_held && !released.remote_held
            &&& shown.remote_held ==> pressed == shown
            &&& !shown.remote_held ==> released == shown
            &&& pressed.manual == shown.manual && released.manual == shown.manual
            &&& pressed.effect == shown.effect && released.effect == shown.effect
            &&& shown.effect != Effect::Box ==> pressed.box_rect == shown.box_rect
                && pressed.box_anchor == shown.box_anchor && pressed.box_aiming == shown.box_aiming
                && released.box_rect == shown.box_rect && released.box_anchor == shown.box_anchor
                && released.box_aiming == shown.box_aiming
            &&& !shown.remote_held && shown.effect == Effect::Box && shown.box_anchor is None
                ==> pressed.box_aiming && pressed.box_rect is None
            &&& shown.remote_held && shown.effect == Effect::Box && shown.box_aiming
                ==> !released.box_aiming && released.box_anchor == Some(pointer)
            &&& shown.remote_held && shown.effect == Effect::Box && !shown.box_aiming
                ==> released.box_anchor is None
        }),
{
}

/// The first shortcut hides an effect that is shown and shows one that is not; any other
/// than the first two changes nothing.
pub proof fn the_first_shortcut_shows_and_hides(shown: Presentation, shortcut: u32, now: i64)
    ensures
        !shown.is_active(now) ==> after_shortcut(shown, 1, now).manual && after_shortcut(
            shown,
            1,
            now,
        ).is_active(now),
        shown.is_active(now) ==> !after_shortcut(shown, 1, now).is_active(now),
        shortcut != 1 && shortcut != 2 ==> after_shortcut(shown, shortcut, now) == shown,
        SHORTCUT_SIGNATURE == 0x5370_5253,
{
}

} // verus!
