use rim::gallery::Gallery;
use rim::title::u64_to_string;
use rim::viewer::Viewer;

fn viewer_over(names: &[&str], requested: &str) -> Viewer {
    let members: Vec<String> = names.iter().map(|n| n.to_string()).collect();
    Viewer::new(Gallery::new(members, requested, false))
}

#[test]
fn load_applies_current_scale_to_new_source() {
    let mut v = viewer_over(&["a.png"], "a.png");
    v.load(800, 600);
    assert_eq!(v.dimensions(), (800, 600));
    assert_eq!(v.scale_factor(), (1, 1));
    assert_eq!(v.zoom_level(), 0);
}

#[test]
fn zoom_in_scales_up_and_steps_the_level() {
    let mut v = viewer_over(&["a.png"], "a.png");
    v.load(800, 600);
    let d = v.zoom_in(0, 0, 100, 100);
    assert!(d.is_some());
    assert_eq!(v.zoom_level(), 1);
    assert_eq!(v.scale_factor(), (5, 6));
    assert_eq!(v.dimensions(), (960, 720));
}

#[test]
fn zoom_out_scales_down_and_steps_the_level() {
    let mut v = viewer_over(&["a.png"], "a.png");
    v.load(800, 600);
    let d = v.zoom_out(0, 0, 100, 100);
    assert!(d.is_some());
    assert_eq!(v.zoom_level(), -1);
    assert_eq!(v.scale_factor(), (6, 5));
    // 800 / 1.2 = 666.67 and 600 / 1.2 = 500, rounded
    assert_eq!(v.dimensions(), (667, 500));
}

#[test]
fn scale_factor_strictly_decreases_and_stays_in_band() {
    let mut v = viewer_over(&["a.png"], "a.png");
    v.load(1000, 1000);
    let mut last = v.scale_factor();
    for step in 0..40 {
        let applied = v.zoom_in(3, 4, 640, 480);
        let now = v.scale_factor();
        if step < 30 {
            assert!(applied.is_some());
            // now < last as rationals
            assert!((now.0 as f64) / (now.1 as f64) < (last.0 as f64) / (last.1 as f64));
            // in band: 1/256 < now <= 32
            assert!(256 * now.0 > now.1);
            assert!(now.0 <= 32 * now.1);
        } else {
            assert!(applied.is_none());
            assert_eq!(now, last);
        }
        last = now;
    }
    assert_eq!(v.zoom_level(), 30);
}

#[test]
fn out_of_band_zoom_out_leaves_state_unchanged() {
    let mut v = viewer_over(&["a.png"], "a.png");
    v.load(1000, 1000);
    for step in 0..25 {
        let applied = v.zoom_out(3, 4, 640, 480);
        if step < 19 {
            assert!(applied.is_some());
        } else {
            assert!(applied.is_none());
        }
    }
    assert_eq!(v.zoom_level(), -19);
    let dims = v.dimensions();
    let pan = v.pan_offset();
    let factor = v.scale_factor();
    assert!(v.zoom_out(9, 9, 99, 99).is_none());
    assert_eq!(v.dimensions(), dims);
    assert_eq!(v.pan_offset(), pan);
    assert_eq!(v.scale_factor(), factor);
}

#[test]
fn zoom_in_then_out_restores_factor_and_dimensions() {
    let mut v = viewer_over(&["a.png"], "a.png");
    v.load(800, 600);
    let factor = v.scale_factor();
    let dims = v.dimensions();
    assert!(v.zoom_in(10, 20, 300, 200).is_some());
    assert!(v.zoom_out(7, 9, 111, 222).is_some());
    assert_eq!(v.scale_factor(), factor);
    assert_eq!(v.dimensions(), dims);
    assert_eq!(v.zoom_level(), 0);
}

#[test]
fn reset_at_neutral_zoom_is_a_no_op() {
    let mut v = viewer_over(&["a.png"], "a.png");
    v.load(800, 600);
    assert!(v.zoom_in(5, 5, 50, 50).is_some());
    assert!(v.zoom_out(60, 60, 50, 50).is_some());
    let dims = v.dimensions();
    let pan = v.pan_offset();
    assert_eq!(v.zoom_level(), 0);
    v.reset();
    assert_eq!(v.zoom_level(), 0);
    assert_eq!(v.dimensions(), dims);
    assert_eq!(v.pan_offset(), pan);
}

#[test]
fn reset_from_nonzero_zoom_restores_native_size() {
    let mut v = viewer_over(&["a.png"], "a.png");
    v.load(800, 600);
    for _ in 0..5 {
        v.zoom_in(12, 34, 640, 480);
    }
    assert_eq!(v.zoom_level(), 5);
    v.reset();
    assert_eq!(v.zoom_level(), 0);
    assert_eq!(v.dimensions(), (800, 600));
    assert_eq!(v.scale_factor(), (1, 1));
}

#[test]
fn invalid_image_makes_zoom_and_reset_no_ops() {
    let mut v = viewer_over(&["a.png"], "a.png");
    assert_eq!(v.source_dimensions(), (0, 0));
    assert!(!v.is_valid());
    assert!(v.zoom_in(1, 2, 30, 40).is_none());
    assert!(v.zoom_out(1, 2, 30, 40).is_none());
    v.reset();
    assert_eq!(v.zoom_level(), 0);
    assert_eq!(v.dimensions(), (0, 0));
    assert_eq!(v.pan_offset(), (0, 0));
}

#[test]
fn zoom_in_pan_delta_follows_the_anchor_formula() {
    let mut v = viewer_over(&["a.png"], "a.png");
    v.load(800, 600);
    // floor(60 * 5 / 6) + floor(120 * 5 / 12) = 50 + 50
    // floor(36 * 5 / 6) + floor(60 * 5 / 12) = 30 + 25
    let d = v.zoom_in(60, 36, 120, 60);
    assert_eq!(d, Some((100, 55)));
    assert_eq!(v.pan_offset(), (100, 55));
}

#[test]
fn zoom_out_pan_delta_clamps_to_zero_below_half_extent() {
    let mut v = viewer_over(&["a.png"], "a.png");
    v.load(800, 600);
    // half extent: floor(240 * 5 / 12) = 100; 50 < 100 gives 0,
    // 150 gives -floor((150 - 100) * 5 / 11) = -22
    let d = v.zoom_out(50, 150, 240, 240);
    assert_eq!(d, Some((0, -22)));
    assert_eq!(v.pan_offset(), (0, -22));
}

#[test]
fn navigation_never_moves_a_single_member_gallery() {
    let mut v = viewer_over(&["vacation.png"], "vacation.png");
    v.load(800, 600);
    let shown = v.gallery().get();
    assert_eq!(v.next(), None);
    assert_eq!(v.prev(), None);
    assert_eq!(v.gallery().get(), shown);
    assert_eq!(v.gallery().position(), 0);
    assert_eq!(v.dimensions(), (800, 600));
}

#[test]
fn navigation_never_moves_an_empty_gallery() {
    let mut v = viewer_over(&[], "");
    assert_eq!(v.next(), None);
    assert_eq!(v.prev(), None);
    assert_eq!(v.title(), None);
}

#[test]
fn navigation_cycles_and_keeps_zoom_level() {
    let mut v = viewer_over(&["a.png", "b.png", "c.png"], "a.png");
    v.load(100, 100);
    assert!(v.zoom_in(0, 0, 10, 10).is_some());
    assert_eq!(v.next().as_deref(), Some("b.png"));
    assert_eq!(v.next().as_deref(), Some("c.png"));
    assert_eq!(v.next().as_deref(), Some("a.png"));
    assert_eq!(v.prev().as_deref(), Some("c.png"));
    assert_eq!(v.zoom_level(), 1);
}

#[test]
fn title_shows_name_position_and_known_size() {
    let mut v = viewer_over(&["vacation.png"], "vacation.png");
    v.load(800, 600);
    assert_eq!(v.title().as_deref(), Some("vacation.png - 1/1 - (800 x 600) - Rim"));
}

#[test]
fn title_omits_unknown_size() {
    let v = viewer_over(&["vacation.png"], "vacation.png");
    assert_eq!(v.title().as_deref(), Some("vacation.png - 1/1 - Rim"));
}

#[test]
fn title_uses_the_final_component_and_one_based_position() {
    let mut v = viewer_over(&["pics/a.png", "pics/b.png"], "pics/b.png");
    v.load(40, 30);
    assert_eq!(v.title().as_deref(), Some("b.png - 2/2 - (40 x 30) - Rim"));
}

#[test]
fn title_is_nothing_without_a_file_name() {
    let v = viewer_over(&[".."], "..");
    assert_eq!(v.title(), None);
}

#[test]
fn extreme_source_size_scales_at_every_level() {
    let mut v = viewer_over(&["a.png"], "a.png");
    v.load(u32::MAX, u32::MAX);
    for _ in 0..30 {
        assert!(v.zoom_in(u32::MAX, u32::MAX, u32::MAX, u32::MAX).is_some());
    }
    let (w, h) = v.dimensions();
    assert!(w > u32::MAX as u64 && h > u32::MAX as u64);
    v.reset();
    assert_eq!(v.dimensions(), (u32::MAX as u64, u32::MAX as u64));
    for _ in 0..19 {
        assert!(v.zoom_out(0, 0, u32::MAX, u32::MAX).is_some());
    }
    let (w, h) = v.dimensions();
    assert!(w < u32::MAX as u64 / 31 && h < u32::MAX as u64 / 31);
}

#[test]
fn decimal_rendering_is_exact() {
    assert_eq!(u64_to_string(0).as_str(), "0");
    assert_eq!(u64_to_string(7).as_str(), "7");
    assert_eq!(u64_to_string(1234567890).as_str(), "1234567890");
}
