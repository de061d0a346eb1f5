use kado::config::{default_refresh_rate, default_true, Config, Hotspot, Position, ScreenOverride};
use kado::detector::{Detector, Location, ScreenInfo};

fn hotspot(size: Option<u32>, enabled: bool) -> Hotspot {
    Hotspot { on_enter: Some(String::from("enter")), on_leave: Some(String::from("leave")), delay: None, size, enabled }
}

fn named_hotspot(on_enter: &str, size: u32) -> Hotspot {
    Hotspot {
        on_enter: Some(String::from(on_enter)),
        on_leave: None,
        delay: None,
        size: Some(size),
        enabled: true,
    }
}

fn empty_config() -> Config {
    Config {
        refresh_rate: 60,
        top: None,
        bottom: None,
        left: None,
        right: None,
        top_left: None,
        top_right: None,
        bottom_left: None,
        bottom_right: None,
        screens: Vec::new(),
    }
}

fn screen(name: &str, x: i16, y: i16, width: u16, height: u16) -> ScreenInfo {
    ScreenInfo { name: String::from(name), x, y, width, height }
}

fn loc(name: &str, position: Position) -> Location {
    Location { screen: String::from(name), position }
}

#[test]
fn defaults() {
    assert_eq!(default_true(), true);
    assert_eq!(default_refresh_rate(), 60);
}

#[test]
fn interior_point_detects_nothing() {
    let mut cfg = empty_config();
    cfg.top = Some(hotspot(Some(10), true));
    cfg.bottom = Some(hotspot(Some(10), true));
    cfg.left = Some(hotspot(Some(10), true));
    cfg.right = Some(hotspot(Some(10), true));
    cfg.top_left = Some(hotspot(Some(10), true));
    cfg.top_right = Some(hotspot(Some(10), true));
    cfg.bottom_left = Some(hotspot(Some(10), true));
    cfg.bottom_right = Some(hotspot(Some(10), true));
    let det = Detector::new(cfg, vec![screen("eDP-1", 0, 0, 1920, 1080)]);
    assert_eq!(det.check(960, 540), None);
    assert_eq!(det.check(10, 10), None);
    assert_eq!(det.check(1909, 1069), None);
}

#[test]
fn top_boundary_is_exclusive() {
    let mut cfg = empty_config();
    cfg.top = Some(hotspot(Some(10), true));
    let det = Detector::new(cfg, vec![screen("eDP-1", 0, 0, 1920, 1080)]);
    assert_eq!(det.check(960, 9), Some(loc("eDP-1", Position::Top)));
    assert_eq!(det.check(960, 10), None);
}

#[test]
fn bottom_and_right_boundaries() {
    let mut cfg = empty_config();
    cfg.bottom = Some(hotspot(Some(10), true));
    let det = Detector::new(cfg, vec![screen("eDP-1", 0, 0, 1920, 1080)]);
    assert_eq!(det.check(960, 1070), Some(loc("eDP-1", Position::Bottom)));
    assert_eq!(det.check(960, 1069), None);

    let mut cfg = empty_config();
    cfg.right = Some(hotspot(Some(10), true));
    let det = Detector::new(cfg, vec![screen("eDP-1", 0, 0, 1920, 1080)]);
    assert_eq!(det.check(1910, 540), Some(loc("eDP-1", Position::Right)));
    assert_eq!(det.check(1909, 540), None);
}

#[test]
fn corner_yields_to_edge_in_scan_order() {
    let mut cfg = empty_config();
    cfg.top = Some(hotspot(Some(10), true));
    cfg.top_left = Some(hotspot(Some(10), true));
    let det = Detector::new(cfg, vec![screen("eDP-1", 0, 0, 1920, 1080)]);
    // the point satisfies both tests; top is scanned first and wins
    assert_eq!(det.check(5, 5), Some(loc("eDP-1", Position::Top)));
    // below the top zone, only the corner test can hold, and it needs
    // both coordinates near the corner
    let mut cfg = empty_config();
    cfg.top_left = Some(hotspot(Some(10), true));
    let det = Detector::new(cfg, vec![screen("eDP-1", 0, 0, 1920, 1080)]);
    assert_eq!(det.check(5, 5), Some(loc("eDP-1", Position::TopLeft)));
    assert_eq!(det.check(5, 10), None);
    assert_eq!(det.check(10, 5), None);
}

#[test]
fn disabled_hotspot_never_detected() {
    let mut cfg = empty_config();
    cfg.top = Some(hotspot(Some(10), false));
    let det = Detector::new(cfg, vec![screen("eDP-1", 0, 0, 1920, 1080)]);
    assert_eq!(det.check(960, 5), None);
}

#[test]
fn unsized_hotspot_never_detected() {
    // size unset means zero: no interior point can pass a boundary test
    // against the zero-width zone
    let mut cfg = empty_config();
    cfg.top = Some(hotspot(None, true));
    cfg.left = Some(hotspot(None, true));
    let det = Detector::new(cfg, vec![screen("eDP-1", 0, 0, 1920, 1080)]);
    assert_eq!(det.check(0, 0), None);
    assert_eq!(det.check(960, 0), None);
}

#[test]
fn point_outside_every_screen() {
    let mut cfg = empty_config();
    cfg.top = Some(hotspot(Some(10), true));
    let det = Detector::new(cfg, vec![screen("eDP-1", 0, 0, 1920, 1080)]);
    assert_eq!(det.check(-1, 5), None);
    assert_eq!(det.check(1920, 5), None);
    assert_eq!(det.check(960, 1080), None);
}

#[test]
fn second_screen_detected_with_offset_origin() {
    let mut cfg = empty_config();
    cfg.left = Some(hotspot(Some(8), true));
    let det = Detector::new(
        cfg,
        vec![screen("eDP-1", 0, 0, 1920, 1080), screen("HDMI-1", 1920, 0, 1280, 1024)],
    );
    assert_eq!(det.check(1925, 500), Some(loc("HDMI-1", Position::Left)));
    assert_eq!(det.check(1928, 500), None);
}

#[test]
fn first_containing_screen_decides() {
    // two screens covering the same rectangle: only the first is
    // consulted, so the second's hotspot never matches there
    let mut cfg = empty_config();
    cfg.screens = vec![ScreenOverride {
        screen: String::from("B"),
        position: Position::Top,
        hotspot: hotspot(Some(10), true),
    }];
    let det = Detector::new(cfg, vec![screen("A", 0, 0, 100, 100), screen("B", 0, 0, 100, 100)]);
    assert_eq!(det.check(50, 5), None);
}

#[test]
fn override_replaces_global() {
    let mut cfg = empty_config();
    cfg.top = Some(named_hotspot("global-top", 10));
    cfg.screens = vec![ScreenOverride {
        screen: String::from("eDP-1"),
        position: Position::Top,
        hotspot: named_hotspot("edp-top", 24),
    }];
    let det = Detector::new(cfg, vec![screen("eDP-1", 0, 0, 1920, 1080)]);

    let eff = det.get_hotspot(&String::from("eDP-1"), Position::Top).unwrap();
    assert_eq!(eff.on_enter.as_deref(), Some("edp-top"));
    assert_eq!(eff.size, Some(24));

    // no merging: the override replaces the global spec wholesale, so
    // the zone is 24 pixels tall here, not 10
    assert_eq!(det.check(960, 23), Some(loc("eDP-1", Position::Top)));

    // another screen still sees the global default
    let other = det.get_hotspot(&String::from("HDMI-1"), Position::Top).unwrap();
    assert_eq!(other.on_enter.as_deref(), Some("global-top"));

    // a position without an override falls through to its global, here absent
    assert!(det.get_hotspot(&String::from("eDP-1"), Position::Bottom).is_none());
}

#[test]
fn first_override_entry_wins() {
    let mut cfg = empty_config();
    cfg.screens = vec![
        ScreenOverride {
            screen: String::from("eDP-1"),
            position: Position::Top,
            hotspot: named_hotspot("first", 10),
        },
        ScreenOverride {
            screen: String::from("eDP-1"),
            position: Position::Top,
            hotspot: named_hotspot("second", 20),
        },
    ];
    let got = cfg.get_screen_hotspot(&String::from("eDP-1"), Position::Top).unwrap();
    assert_eq!(got.on_enter.as_deref(), Some("first"));
    assert!(cfg.get_screen_hotspot(&String::from("eDP-1"), Position::Left).is_none());
    assert!(cfg.get_screen_hotspot(&String::from("HDMI-1"), Position::Top).is_none());
}
