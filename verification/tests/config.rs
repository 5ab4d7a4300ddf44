//! The compositor's configuration.

use bacak_compositor::config::{
    config_path, dock_edge_named, keys, parse_list, CompositorConfig, DockEdge, Number,
};

fn num(v: f32) -> Number {
    Number { bits: v.to_bits() }
}

/// Set a field as the command line does: the value's text, and the number that it
/// reads as.
fn set(c: &mut CompositorConfig, key: &str, value: &str) -> Result<(), String> {
    c.set_field(key, value, value.trim().parse::<f32>().ok().map(num))
}

#[test]
fn defaults_match_the_tuned_constants() {
    let d = CompositorConfig::default();
    assert!(!d.blur);
    assert_eq!(d.blur_radius, num(24.0));
    assert_eq!(d.shadow_top, num(1.0));
    assert_eq!(d.shadow_step, num(0.18));
    assert_eq!(d.shadow_floor, num(0.30));
    assert_eq!((d.dock_slot_w, d.dock_slot_h), (num(96.0), num(12.0)));
}

#[test]
fn set_field_typed_and_unknown() {
    let mut c = CompositorConfig::default();
    set(&mut c, "blur", "true").unwrap();
    assert!(c.blur);
    set(&mut c, "blur_radius", "40").unwrap();
    assert_eq!(c.blur_radius, num(40.0));
    set(&mut c, "dock", "true").unwrap();
    assert!(c.dock);
    set(&mut c, "dock_height", "72").unwrap();
    assert_eq!(c.dock_height, num(72.0));
    set(&mut c, "dock_autohide", "true").unwrap();
    assert!(c.dock_autohide);
    assert!(set(&mut c, "dock_autohide", "sometimes").is_err()); // not a bool
    set(&mut c, "dock_edge", "left").unwrap();
    assert_eq!(c.dock_edge, DockEdge::Left);
    set(&mut c, "dock_edge", "TOP").unwrap(); // case-insensitive
    assert_eq!(c.dock_edge, DockEdge::Top);
    assert!(set(&mut c, "dock_edge", "north").is_err());
    assert!(set(&mut c, "dock", "maybe").is_err()); // not a bool
    assert!(set(&mut c, "dock_height", "tall").is_err()); // not a number
    assert!(set(&mut c, "blur", "yes").is_err()); // not a bool
    assert!(set(&mut c, "blur_radius", "wide").is_err()); // not a number
    // List key: comma-split, trimmed, de-duped, order-preserving.
    set(&mut c, "dock_pinned", " firefox , org.kde.kate ,firefox, ").unwrap();
    assert_eq!(c.dock_pinned, vec!["firefox", "org.kde.kate"]);
    let e = set(&mut c, "nope", "1").unwrap_err();
    assert!(e.contains("unknown key") && e.contains("blur_radius"));
}

#[test]
fn reset_field_restores_default_and_rejects_unknown() {
    let mut c = CompositorConfig::default();
    set(&mut c, "blur_radius", "99").unwrap();
    assert_eq!(c.blur_radius, num(99.0));
    c.reset_field("blur_radius").unwrap();
    assert_eq!(c.blur_radius, CompositorConfig::default().blur_radius);
    set(&mut c, "dock", "true").unwrap();
    set(&mut c, "dock_height", "120").unwrap();
    c.reset_field("dock").unwrap();
    c.reset_field("dock_height").unwrap();
    assert_eq!(c.dock, CompositorConfig::default().dock);
    assert_eq!(c.dock_height, CompositorConfig::default().dock_height);
    set(&mut c, "dock_autohide", "true").unwrap();
    c.reset_field("dock_autohide").unwrap();
    assert_eq!(c.dock_autohide, CompositorConfig::default().dock_autohide);
    set(&mut c, "dock_edge", "left").unwrap();
    c.reset_field("dock_edge").unwrap();
    assert_eq!(c.dock_edge, CompositorConfig::default().dock_edge);
    set(&mut c, "dock_pinned", "a,b").unwrap();
    c.reset_field("dock_pinned").unwrap();
    assert!(c.dock_pinned.is_empty());
    assert!(c.reset_field("bogus").unwrap_err().contains("unknown key"));
}

#[test]
fn set_then_sanitize_clamps_like_a_loaded_file() {
    let mut c = CompositorConfig::default();
    set(&mut c, "shadow_top", "9").unwrap(); // accepted as-is
    assert_eq!(c.shadow_top, num(9.0));
    c.sanitize(); // caller clamps, same as load()
    assert_eq!(c.shadow_top, num(1.0));
}

#[test]
fn sanitize_clamps_bad_values() {
    let mut c = CompositorConfig {
        blur_radius: num(-5.0),
        shadow_top: num(9.0),
        shadow_floor: num(-1.0),
        shadow_step: num(f32::NAN),
        dock_slot_w: num(0.0),
        dock_slot_h: num(-3.0),
        dock_height: num(-10.0),
        dock_pinned: vec![" firefox ".into(), "".into(), "firefox".into(), "kate".into()],
        ..CompositorConfig::default()
    };
    c.sanitize();
    assert_eq!(c.blur_radius, num(24.0));
    assert_eq!(c.shadow_top, num(1.0));
    assert_eq!(c.shadow_floor, num(0.0)); // clamped into [0, top]
    assert_eq!(c.shadow_step, num(0.18));
    assert_eq!(c.dock_slot_w, num(96.0));
    assert_eq!(c.dock_slot_h, num(12.0));
    assert_eq!(c.dock_height, num(56.0)); // bad height → default band
    // Blanks dropped, padding trimmed, dupes collapsed, order kept.
    assert_eq!(c.dock_pinned, vec!["firefox", "kate"]);
}

#[test]
fn opacities_that_are_no_numbers_are_put_right() {
    let mut c = CompositorConfig {
        shadow_top: num(f32::NAN),
        shadow_floor: num(f32::NAN),
        ..CompositorConfig::default()
    };
    c.sanitize();
    assert_eq!((c.shadow_top, c.shadow_floor), (num(1.0), num(0.30)));
    // The default floor is no higher than the topmost shadow either.
    c.shadow_top = num(0.1);
    c.shadow_floor = num(f32::NAN);
    c.sanitize();
    assert_eq!((c.shadow_top, c.shadow_floor), (num(0.1), num(0.1)));
    let again = c.clone();
    c.sanitize();
    assert_eq!(c, again);
}

#[test]
fn env_forces_blur_on_over_a_false_file() {
    let cfg = CompositorConfig { blur: false, ..CompositorConfig::default() };
    assert!(!cfg.blur_enabled(false));
    assert!(cfg.blur_enabled(true));
    let cfg = CompositorConfig { blur: true, ..CompositorConfig::default() };
    assert!(cfg.blur_enabled(false));
}

#[test]
fn numbers_order_as_floats_do() {
    let samples = [
        f32::NEG_INFINITY, -96.5, -1.0, -f32::MIN_POSITIVE, -0.0, 0.0, 1e-40, 0.18, 1.0, 96.0,
        f32::MAX, f32::INFINITY, f32::NAN,
    ];
    for a in samples {
        assert_eq!(num(a).is_nan(), a.is_nan());
        assert_eq!(num(a).is_finite(), a.is_finite());
        for b in samples {
            assert_eq!(num(a).less(num(b)), a < b, "{a} < {b}");
            assert_eq!(num(a).at_most(num(b)), a <= b, "{a} <= {b}");
        }
        let kept = num(a).clamp(num(0.0), num(1.0));
        if a.is_nan() {
            assert!(kept.is_nan());
        } else {
            assert_eq!(f32::from_bits(kept.bits), a.clamp(0.0, 1.0));
        }
    }
}

#[test]
fn load_falls_back_to_defaults_and_cleans_up() {
    assert_eq!(CompositorConfig::load(None), CompositorConfig::default());
    let wild = CompositorConfig { dock_height: num(-1.0), ..CompositorConfig::default() };
    assert_eq!(CompositorConfig::load(Some(wild)), CompositorConfig::default());
}

#[test]
fn sanitizing_twice_changes_nothing_more() {
    let mut c = CompositorConfig {
        shadow_floor: num(7.0),
        dock_pinned: vec!["a".into(), " a".into()],
        ..CompositorConfig::default()
    };
    c.sanitize();
    let once = c.clone();
    c.sanitize();
    assert_eq!(c, once);
    assert_eq!(once.dock_pinned, ["a"]);
}

#[test]
fn every_key_can_be_reset() {
    for key in keys() {
        let mut c = CompositorConfig::default();
        assert_eq!(c.reset_field(&key), Ok(()));
        assert_eq!(c, CompositorConfig::default());
    }
}

#[test]
fn dock_edges_are_named_in_lower_case() {
    assert_eq!(dock_edge_named("bottom"), Ok(DockEdge::Bottom));
    assert_eq!(dock_edge_named("right"), Ok(DockEdge::Right));
    assert!(dock_edge_named("Right").is_err());
    assert!(DockEdge::Top.is_horizontal());
    assert!(!DockEdge::Left.is_horizontal());
}

#[test]
fn lists_are_read_back_as_written() {
    let list = parse_list("a, b,,a ,c");
    assert_eq!(list, ["a", "b", "c"]);
    assert_eq!(parse_list(&list.join(",")), list);
}

#[test]
fn the_file_is_below_the_config_home() {
    assert_eq!(
        config_path(Some("/x"), Some("/home/u")).as_deref(),
        Some("/x/bacak/compositor.json")
    );
    assert_eq!(
        config_path(None, Some("/home/u")).as_deref(),
        Some("/home/u/.config/bacak/compositor.json")
    );
    assert_eq!(config_path(None, None), None);
}
