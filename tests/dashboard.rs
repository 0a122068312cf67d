use sbh::dashboard::{
    build_overview_layout, classify_layout, level_label, pressure_severity, status_badge,
    AccessibilityProfile, ColorMode, ContrastMode, DashboardRuntimeMode, LayoutClass, MotionMode,
    NullTelemetryHook, OverviewPane, Screen, SemanticToken, SpacingScale, TelemetryHook,
    TelemetrySample, Theme, ThemePalette,
};
use sbh::display::{human_bytes, human_duration};

#[test]
fn classify_layout_switches_at_threshold() {
    assert_eq!(classify_layout(80), LayoutClass::Narrow);
    assert_eq!(classify_layout(99), LayoutClass::Narrow);
    assert_eq!(classify_layout(100), LayoutClass::Wide);
}

#[test]
fn narrow_layout_hides_p2_under_height_budget() {
    let layout = build_overview_layout(90, 18);
    let p2 = layout.placements.iter().find(|p| p.pane == OverviewPane::ExtendedCounters);
    assert!(p2.is_some_and(|p| !p.visible));
}

#[test]
fn wide_layout_uses_two_columns() {
    let layout = build_overview_layout(140, 30);
    assert_eq!(layout.class, LayoutClass::Wide);
    let pressure = layout.placements.iter().find(|p| p.pane == OverviewPane::PressureSummary).expect("pressure pane");
    let action = layout.placements.iter().find(|p| p.pane == OverviewPane::ActionLane).expect("action pane");
    assert!(action.rect.col > pressure.rect.col);
    // 139 usable columns: 83 left, 56 right, right column at 84.
    assert_eq!(pressure.rect.width, 83);
    assert_eq!(action.rect.col, 84);
    assert_eq!(action.rect.width, 56);
}

#[test]
fn pane_ids_are_stable() {
    assert_eq!(OverviewPane::PressureSummary.id(), "pressure-summary");
    assert_eq!(OverviewPane::ExtendedCounters.id(), "extended-counters");
}

#[test]
fn default_screen_is_overview() {
    assert_eq!(Screen::default(), Screen::Overview);
}

#[test]
fn screen_number_round_trip() {
    for n in 1..=7 {
        let screen = Screen::from_number(n).unwrap();
        assert_eq!(screen.number(), n);
    }
}

#[test]
fn screen_from_number_out_of_range() {
    assert_eq!(Screen::from_number(0), None);
    assert_eq!(Screen::from_number(8), None);
}

#[test]
fn screen_next_wraps() {
    assert_eq!(Screen::Overview.next(), Screen::Timeline);
    assert_eq!(Screen::Diagnostics.next(), Screen::Overview);
}

#[test]
fn screen_prev_wraps() {
    assert_eq!(Screen::Overview.prev(), Screen::Diagnostics);
    assert_eq!(Screen::Timeline.prev(), Screen::Overview);
}

#[test]
fn screen_next_prev_cycle_all_seven() {
    let mut s = Screen::Overview;
    for _ in 0..7 {
        s = s.next();
    }
    assert_eq!(s, Screen::Overview);
}

#[test]
fn screen_prev_next_are_inverse() {
    for n in 1..=7 {
        let s = Screen::from_number(n).unwrap();
        assert_eq!(s.next().prev(), s);
        assert_eq!(s.prev().next(), s);
    }
}

#[test]
fn no_color_profile_disables_color_mode() {
    let profile = AccessibilityProfile::from_no_color_flag(true);
    assert!(profile.no_color());
    assert!(!AccessibilityProfile::from_no_color_flag(false).no_color());
}

#[test]
fn spacing_compacts_on_narrow_terminals() {
    let compact = SpacingScale::for_columns(80);
    let wide = SpacingScale::for_columns(140);
    assert!(compact.outer_padding < wide.outer_padding);
    assert!(compact.inner_padding < wide.inner_padding);
}

#[test]
fn pressure_level_maps_to_semantic_tokens() {
    let palette = ThemePalette::standard();
    assert_eq!(palette.for_pressure_level("critical").token, SemanticToken::Critical);
    assert_eq!(palette.for_pressure_level("green").token, SemanticToken::Success);
    assert_eq!(palette.for_pressure_level("orange").token, SemanticToken::Danger);
    assert_eq!(palette.for_pressure_level("mauve").token, SemanticToken::Neutral);
}

#[test]
fn badge_respects_no_color_mode() {
    let accessibility = AccessibilityProfile { contrast: ContrastMode::Standard, motion: MotionMode::Full, color: ColorMode::Disabled };
    let theme = Theme::for_terminal(120, accessibility);
    let badge = status_badge("LIVE", theme.palette.success, accessibility);
    assert_eq!(badge, "[LIVE]");
    let colored = AccessibilityProfile::default();
    assert_eq!(status_badge("LIVE", theme.palette.success, colored), "[ok:LIVE]");
}

#[test]
fn runtime_mode_defaults_to_new_cockpit() {
    assert_eq!(DashboardRuntimeMode::default(), DashboardRuntimeMode::NewCockpit);
}

#[test]
fn null_hook_accepts_samples_without_panicking() {
    let mut hook = NullTelemetryHook;
    hook.record(TelemetrySample::new("runtime", "tick", "ok"));
}

#[test]
fn human_bytes_formatting() {
    assert_eq!(human_bytes(0), "0.00 B");
    assert_eq!(human_bytes(1024), "1.00 KB");
    assert_eq!(human_bytes(1_073_741_824), "1.00 GB");
    assert_eq!(human_bytes(1536), "1.50 KB");
    assert_eq!(human_bytes(150 * 1024), "150 KB");
    assert_eq!(human_bytes(15 * 1024 * 1024 + 512 * 1024), "15.5 MB");
}

#[test]
fn human_duration_formatting() {
    assert_eq!(human_duration(30), "30s");
    assert_eq!(human_duration(90), "1m 30s");
    assert_eq!(human_duration(3600), "1h 0m");
    assert_eq!(human_duration(90000), "1d 1h");
}

#[test]
fn level_labels_and_severity() {
    assert_eq!(level_label("red"), "RED");
    assert_eq!(level_label("critical"), "CRITICAL");
    assert_eq!(level_label("weird"), "weird");
    assert_eq!(pressure_severity("green"), 0);
    assert_eq!(pressure_severity("orange"), 2);
    assert_eq!(pressure_severity("critical"), 4);
    assert_eq!(pressure_severity("weird"), 0);
}

#[test]
fn theme_is_exact() {
    let hc = AccessibilityProfile { contrast: ContrastMode::High, motion: MotionMode::Reduced, color: ColorMode::Enabled };
    let t = Theme::for_terminal(80, hc);
    assert_eq!(t.palette, ThemePalette::high_contrast());
    assert_eq!(t.spacing, SpacingScale::compact());
    assert!(hc.reduced_motion());
    assert_eq!(ThemePalette::standard().muted.color_tag, "dark-grey");
    assert_eq!(ThemePalette::high_contrast().critical.color_tag, "bright-red");
}
