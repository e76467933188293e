use orange_beam::measure::Number;
use orange_beam::presentation::{clamp_radius, BoxView, Effect, Point, Presentation, Rect};

#[test]
fn displays_above_and_left_use_local_coordinates_without_dpi_scaling() {
    let left = Rect {
        x: -1_920_000_000,
        y: 200_000_000,
        width: 1_920_000_000,
        height: 1_080_000_000,
    };
    assert_eq!(
        left.local_point(Point {
            x: -960_000_000,
            y: 740_000_000
        }),
        Some(Point { x: 960_000_000, y: 540_000_000 })
    );
    assert_eq!(left.local_point(Point { x: 0, y: 740_000_000 }), None);
    assert_eq!(
        left.local_point(Point {
            x: -960_000_000,
            y: 199_000_000
        }),
        None
    );
}
#[test]
fn shared_display_edge_belongs_to_one_screen() {
    let first = Rect {
        x: 0,
        y: 0,
        width: 100_000_000,
        height: 100_000_000,
    };
    let second = Rect { x: 100_000_000, ..first };
    let edge = Point { x: 100_000_000, y: 50_000_000 };
    assert!(first.local_point(edge).is_none());
    assert!(second.local_point(edge).is_some());
}
#[test]
fn preview_expires_and_hide_cancels_every_activation() {
    let mut s = Presentation::default();
    s.preview(5_000_000, 10_000_000);
    assert!(s.active(14_990_000));
    assert!(!s.active(15_000_000));
    s.toggle(16_000_000);
    assert!(s.active(1_000_000_000));
    s.hide_now();
    assert!(!s.active(1_000_000_000));
    s.preview(1_000_000_000, 10_000_000);
    s.toggle(1_001_000_000);
    assert!(!s.active(1_002_000_000));
}
#[test]
fn box_takes_two_holds_so_the_start_corner_can_be_aimed() {
    let mut s = Presentation {
        effect: Effect::Box,
        ..Default::default()
    };
    let aim = Point { x: 50_000_000, y: 60_000_000 };
    let start = Point { x: 300_000_000, y: 400_000_000 };
    let end = Point { x: 100_000_000, y: 250_000_000 };
    // First hold: pointer moves freely; release fixes the start corner.
    s.set_remote_held(true);
    s.begin_box(aim);
    assert_eq!(s.box_view(aim, 0), Some(BoxView::Aim(aim)));
    assert_eq!(s.box_view(start, 0), Some(BoxView::Aim(start)));
    s.finish_box(start);
    s.set_remote_held(false);
    assert_eq!(s.box_view(end, 0), Some(BoxView::Anchor(start)));
    assert!(s.active(1_000_000), "the start marker stays visible");
    // Second hold drags live from the fixed corner; release keeps it.
    s.set_remote_held(true);
    s.begin_box(start);
    let dragged = Rect {
        x: 100_000_000,
        y: 250_000_000,
        width: 200_000_000,
        height: 150_000_000,
    };
    assert_eq!(s.box_view(end, 0), Some(BoxView::Rect(dragged)));
    s.finish_box(end);
    s.set_remote_held(false);
    assert_eq!(s.box_view(aim, 0), Some(BoxView::Rect(dragged)));
    assert!(s.active(1_000_000));
    // The next hold aims a new rectangle and drops the kept one.
    s.set_remote_held(true);
    s.begin_box(aim);
    assert_eq!(s.box_view(aim, 0), Some(BoxView::Aim(aim)));
    s.finish_box(aim);
    s.set_remote_held(false);
    // A click-sized second drag cancels instead of leaving a sliver.
    s.set_remote_held(true);
    s.begin_box(aim);
    s.finish_box(Point { x: 53_000_000, y: 62_000_000 });
    s.set_remote_held(false);
    assert_eq!(s.box_view(aim, 0), None);
    assert!(!s.active(1_000_000));
}
#[test]
fn box_is_cleared_by_hide_and_ignored_outside_box_mode() {
    let mut s = Presentation {
        effect: Effect::Box,
        ..Default::default()
    };
    s.set_remote_held(true);
    s.begin_box(Point { x: 0, y: 0 });
    s.finish_box(Point { x: 0, y: 0 });
    s.set_remote_held(false);
    assert!(s.has_box(), "start corner fixed");
    s.set_remote_held(true);
    s.begin_box(Point { x: 0, y: 0 });
    s.hide_now(); // emergency hide during the drag
    s.finish_box(Point { x: 200_000_000, y: 200_000_000 });
    s.set_remote_held(false);
    assert!(!s.has_box());
    s.effect = Effect::Spotlight;
    s.set_remote_held(true);
    s.begin_box(Point { x: 0, y: 0 });
    s.finish_box(Point { x: 200_000_000, y: 200_000_000 });
    assert!(!s.has_box(), "spotlight mode never creates a rectangle");
}
#[test]
fn switching_flashes_the_effect_without_touching_manual_mode() {
    let mut s = Presentation::default();
    s.flash(10_000_000, 1_200_000);
    assert!(s.active(10_500_000));
    assert!(!s.active(11_200_000));
    s.toggle(20_000_000); // manual on
    s.flash(20_000_000, 1_200_000);
    assert!(s.active(30_000_000), "flash expiry keeps manual mode");
    s.hide_now();
    s.flash(40_000_000, 1_200_000);
    s.hide_now();
    assert!(!s.active(40_100_000), "hide cancels a flash");
    // Box mode shows a sample rectangle only while flashing.
    let mut b = Presentation {
        effect: Effect::Box,
        ..Default::default()
    };
    let p = Point { x: 500_000_000, y: 300_000_000 };
    b.flash(1_000_000, 1_200_000);
    assert_eq!(
        b.box_view(p, 1_500_000),
        Some(BoxView::Rect(Rect {
            x: 380_000_000,
            y: 225_000_000,
            width: 240_000_000,
            height: 150_000_000
        }))
    );
    assert_eq!(b.box_view(p, 2_500_000), None);
    b.preview(3_000_000, 10_000_000);
    assert!(matches!(b.box_view(p, 4_000_000), Some(BoxView::Rect(_))));
}
#[test]
fn rectangles_intersect_only_when_overlapping() {
    let screen = Rect {
        x: 0,
        y: 0,
        width: 100_000_000,
        height: 100_000_000,
    };
    let right = Rect { x: 100_000_000, ..screen };
    assert!(!screen.intersects(right));
    assert!(screen.intersects(Rect { x: 99_000_000, ..screen }));
}
#[test]
fn immediate_hide_also_ends_black_screen() {
    let mut s = Presentation {
        blackout: true,
        ..Default::default()
    };
    s.set_remote_held(false);
    assert!(
        s.blackout,
        "releasing the top button does not end black screen"
    );
    s.hide_now();
    assert!(!s.blackout);
}
#[test]
fn radius_stays_in_usable_range() {
    let mut s = Presentation::default();
    s.resize(Number::Finite(1_000_000_000));
    assert_eq!(s.radius, 500_000_000);
    s.resize(Number::Finite(100));
    assert_eq!(s.radius, 40_000_000);
}

#[test]
fn radii_are_clamped_and_numbers_without_value_mean_the_default() {
    assert_eq!(clamp_radius(Number::Finite(9_999_000_000)), 500_000_000);
    assert_eq!(clamp_radius(Number::Finite(-1)), 40_000_000);
    assert_eq!(clamp_radius(Number::Finite(150_500_000)), 150_500_000);
    assert_eq!(clamp_radius(Number::NotFinite), 150_000_000);
    let mut s = Presentation::default();
    s.resize(Number::Finite(800_000));
    assert_eq!(s.radius, 120_000_000);
    s.resize(Number::Finite(1_250_000));
    assert_eq!(s.radius, 150_000_000);
    s.resize(Number::Finite(-1_000_000));
    assert_eq!(s.radius, 40_000_000);
    s.resize(Number::NotFinite);
    assert_eq!(s.radius, 150_000_000);
    s.resize(Number::Finite(i64::MAX));
    assert_eq!(s.radius, 500_000_000);
}

#[test]
fn corners_span_the_same_rectangle_in_either_order() {
    let a = Point { x: -3, y: 40 };
    let b = Point { x: 7, y: 10 };
    let rect = Rect {
        x: -3,
        y: 10,
        width: 10,
        height: 30,
    };
    assert_eq!(Rect::spanning(a, b), rect);
    assert_eq!(Rect::spanning(b, a), rect);
    let far = Rect::spanning(
        Point {
            x: i64::MIN,
            y: 0,
        },
        Point { x: i64::MAX, y: 0 },
    );
    assert_eq!(far.width, u64::MAX);
}

#[test]
fn a_flash_at_the_end_of_time_stays_there() {
    let mut s = Presentation::default();
    s.flash(i64::MAX - 1, 1_000_000);
    assert!(s.active(i64::MAX - 1));
    assert!(!s.active(i64::MAX));
    s.hide_now();
    s.preview(i64::MIN, -1);
    assert!(!s.active(i64::MIN));
}

#[test]
fn clearing_a_box_leaves_nothing_kept() {
    let mut s = Presentation {
        effect: Effect::Box,
        ..Presentation::default()
    };
    s.set_remote_held(true);
    s.begin_box(Point { x: 0, y: 0 });
    s.finish_box(Point { x: 5, y: 5 });
    assert!(s.has_box());
    s.clear_box();
    assert!(!s.has_box());
    assert_eq!(Effect::default(), Effect::Spotlight);
}
