//! Dashboard navigation, pane layout and theme tokens: the pure parts of
//! the terminal dashboard.

use vstd::prelude::*;
use crate::text::str_eq;

verus! {

/// The seven dashboard screens, in navigation order.
#[derive(Debug, Clone, Copy, PartialEq, Eq, Structural, Hash)]
pub enum Screen {
    Overview,
    Timeline,
    Explainability,
    Candidates,
    Ballast,
    LogSearch,
    Diagnostics,
}

impl Screen {
    pub open spec fn number_spec(self) -> u8 {
        match self {
            Screen::Overview => 1,
            Screen::Timeline => 2,
            Screen::Explainability => 3,
            Screen::Candidates => 4,
            Screen::Ballast => 5,
            Screen::LogSearch => 6,
            Screen::Diagnostics => 7,
        }
    }

    pub open spec fn from_number_spec(n: u8) -> Option<Screen> {
        if n == 1 { Some(Screen::Overview) }
        else if n == 2 { Some(Screen::Timeline) }
        else if n == 3 { Some(Screen::Explainability) }
        else if n == 4 { Some(Screen::Candidates) }
        else if n == 5 { Some(Screen::Ballast) }
        else if n == 6 { Some(Screen::LogSearch) }
        else if n == 7 { Some(Screen::Diagnostics) }
        else { None }
    }

    /// 1-based hotkey number.
    pub fn number(self) -> (r: u8)
        ensures
            r == self.number_spec(),
            1 <= r <= 7,
    {
        match self {
            Screen::Overview => 1,
            Screen::Timeline => 2,
            Screen::Explainability => 3,
            Screen::Candidates => 4,
            Screen::Ballast => 5,
            Screen::LogSearch => 6,
            Screen::Diagnostics => 7,
        }
    }

    /// The screen of a hotkey number; `None` outside 1..=7.
    pub fn from_number(n: u8) -> (r: Option<Screen>)
        ensures
            r == Screen::from_number_spec(n),
    {
        if n == 1 { Some(Screen::Overview) }
        else if n == 2 { Some(Screen::Timeline) }
        else if n == 3 { Some(Screen::Explainability) }
        else if n == 4 { Some(Screen::Candidates) }
        else if n == 5 { Some(Screen::Ballast) }
        else if n == 6 { Some(Screen::LogSearch) }
        else if n == 7 { Some(Screen::Diagnostics) }
        else { None }
    }

    /// Next screen, wrapping from the last to the first.
    pub fn next(self) -> (r: Screen)
        ensures
            Screen::from_number_spec((self.number_spec() % 7 + 1) as u8) == Some(r),
    {
        let n = self.number() % 7 + 1;
        match Screen::from_number(n) {
            Some(s) => s,
            None => Screen::Overview,
        }
    }

    /// Previous screen, wrapping from the first to the last.
    pub fn prev(self) -> (r: Screen)
        ensures
            Screen::from_number_spec(if self.number_spec() == 1 { 7 } else { (self.number_spec() - 1) as u8 }) == Some(r),
    {
        let n = if self.number() == 1 { 7 } else { self.number() - 1 };
        match Screen::from_number(n) {
            Some(s) => s,
            None => Screen::Diagnostics,
        }
    }
}

impl Default for Screen {
    fn default() -> (r: Self)
        ensures
            r == Screen::Overview,
    {
        Screen::Overview
    }
}

/// Numbers and screens correspond one to one; `next` and `prev` undo each
/// other, and seven steps forward come back to the start.
pub proof fn lemma_screen_navigation(s: Screen, n: u8)
    ensures
        Screen::from_number_spec(s.number_spec()) == Some(s),
        Screen::from_number_spec(n) matches Some(t) ==> t.number_spec() == n,
{
}

/// Layout class chosen from the terminal width.
#[derive(Debug, Clone, Copy, PartialEq, Eq, Structural)]
pub enum LayoutClass {
    Narrow,
    Wide,
}

/// Priority of a pane when space runs short.
#[derive(Debug, Clone, Copy, PartialEq, Eq, Structural)]
pub enum PanePriority {
    P0,
    P1,
    P2,
}

/// Panes of the overview screen.
#[derive(Debug, Clone, Copy, PartialEq, Eq, Structural)]
pub enum OverviewPane {
    PressureSummary,
    ActionLane,
    EwmaTrend,
    RecentActivity,
    BallastQuick,
    ExtendedCounters,
}

impl OverviewPane {
    pub open spec fn id_spec(self) -> Seq<char> {
        match self {
            OverviewPane::PressureSummary => "pressure-summary"@,
            OverviewPane::ActionLane => "action-lane"@,
            OverviewPane::EwmaTrend => "ewma-trend"@,
            OverviewPane::RecentActivity => "recent-activity"@,
            OverviewPane::BallastQuick => "ballast-quick"@,
            OverviewPane::ExtendedCounters => "extended-counters"@,
        }
    }

    /// Stable pane identifier.
    pub fn id(self) -> (r: &'static str)
        ensures
            r@ == self.id_spec(),
    {
        match self {
            OverviewPane::PressureSummary => "pressure-summary",
            OverviewPane::ActionLane => "action-lane",
            OverviewPane::EwmaTrend => "ewma-trend",
            OverviewPane::RecentActivity => "recent-activity",
            OverviewPane::BallastQuick => "ballast-quick",
            OverviewPane::ExtendedCounters => "extended-counters",
        }
    }
}

/// A pane's rectangle in terminal cells.
#[derive(Debug, Clone, Copy, PartialEq, Eq, Structural)]
pub struct PaneRect {
    pub col: u16,
    pub row: u16,
    pub width: u16,
    pub height: u16,
}

impl PaneRect {
    pub fn new(col: u16, row: u16, width: u16, height: u16) -> (r: Self)
        ensures
            r == (PaneRect { col, row, width, height }),
    {
        PaneRect { col, row, width, height }
    }
}

/// Where a pane goes and whether it shows.
#[derive(Debug, Clone, Copy, PartialEq, Eq, Structural)]
pub struct PanePlacement {
    pub pane: OverviewPane,
    pub priority: PanePriority,
    pub rect: PaneRect,
    pub visible: bool,
}

impl PanePlacement {
    pub fn new(pane: OverviewPane, priority: PanePriority, rect: PaneRect, visible: bool) -> (r: Self)
        ensures
            r == (PanePlacement { pane, priority, rect, visible }),
    {
        PanePlacement { pane, priority, rect, visible }
    }
}

/// The overview layout for a terminal size.
#[derive(Debug, Clone, PartialEq, Eq)]
pub struct OverviewLayout {
    pub class: LayoutClass,
    pub placements: Vec<PanePlacement>,
}

/// Width from which the two-column layout is used.
pub const WIDE_THRESHOLD_COLS: u16 = 100;

/// Narrow below 100 columns, wide from there.
pub fn classify_layout(cols: u16) -> (r: LayoutClass)
    ensures
        r == if cols < WIDE_THRESHOLD_COLS { LayoutClass::Narrow } else { LayoutClass::Wide },
{
    if cols < WIDE_THRESHOLD_COLS { LayoutClass::Narrow } else { LayoutClass::Wide }
}

pub open spec fn place(pane: OverviewPane, priority: PanePriority, col: int, row: int, width: int, height: int, visible: bool) -> PanePlacement {
    PanePlacement {
        pane,
        priority,
        rect: PaneRect { col: col as u16, row: row as u16, width: width as u16, height: height as u16 },
        visible,
    }
}

/// Single column: panes stacked; the lowest-priority pane shows from 20 rows.
pub open spec fn narrow_spec(cols: u16, rows: u16) -> Seq<PanePlacement> {
    let w: int = if cols >= 1 { cols as int } else { 1 };
    seq![
        place(OverviewPane::PressureSummary, PanePriority::P0, 0, 0, w, 3, true),
        place(OverviewPane::ActionLane, PanePriority::P0, 0, 3, w, 3, true),
        place(OverviewPane::EwmaTrend, PanePriority::P1, 0, 6, w, 3, true),
        place(OverviewPane::RecentActivity, PanePriority::P1, 0, 9, w, 3, true),
        place(OverviewPane::BallastQuick, PanePriority::P1, 0, 12, w, 2, true),
        place(OverviewPane::ExtendedCounters, PanePriority::P2, 0, 14, w, 2, rows >= 20),
    ]
}

/// Column split: three fifths left, the rest right, each at least 1, after a gutter.
pub open spec fn split_spec(cols: u16, gutter: u16) -> (u16, u16) {
    let usable: int = if cols >= gutter { cols - gutter } else { 0 };
    let l0: int = if usable * 3 > u16::MAX { u16::MAX as int / 5 } else { (usable * 3) / 5 };
    let left: int = if l0 >= 1 { l0 } else { 1 };
    let r0: int = if usable >= left { usable - left } else { 0 };
    let right: int = if r0 >= 1 { r0 } else { 1 };
    (left as u16, right as u16)
}

/// Two columns; the lowest-priority pane spans both and shows from 24 rows.
pub open spec fn wide_spec(cols: u16, rows: u16) -> Seq<PanePlacement> {
    let w: int = if cols >= 1 { cols as int } else { 1 };
    let (l, r) = split_spec(w as u16, 1);
    let rc: int = if l as int + 1 > u16::MAX { u16::MAX as int } else { l + 1 };
    seq![
        place(OverviewPane::PressureSummary, PanePriority::P0, 0, 0, l as int, 4, true),
        place(OverviewPane::ActionLane, PanePriority::P0, rc, 0, r as int, 4, true),
        place(OverviewPane::EwmaTrend, PanePriority::P1, 0, 4, l as int, 4, true),
        place(OverviewPane::RecentActivity, PanePriority::P1, rc, 4, r as int, 4, true),
        place(OverviewPane::BallastQuick, PanePriority::P1, rc, 8, r as int, 3, true),
        place(OverviewPane::ExtendedCounters, PanePriority::P2, 0, 11, w, 3, rows >= 24),
    ]
}

fn split_columns(cols: u16, gutter: u16) -> (r: (u16, u16))
    ensures
        r == split_spec(cols, gutter),
{
    let usable: u16 = if cols >= gutter { cols - gutter } else { 0 };
    let l0: u16 = if usable as u32 * 3 > u16::MAX as u32 { u16::MAX / 5 } else { ((usable as u32 * 3) / 5) as u16 };
    let left: u16 = if l0 >= 1 { l0 } else { 1 };
    let r0: u16 = if usable >= left { usable - left } else { 0 };
    let right: u16 = if r0 >= 1 { r0 } else { 1 };
    (left, right)
}

fn build_narrow_layout(cols: u16, rows: u16) -> (r: OverviewLayout)
    ensures
        r.class == LayoutClass::Narrow,
        r.placements@ == narrow_spec(cols, rows),
{
    let w: u16 = if cols >= 1 { cols } else { 1 };
    let mut v: Vec<PanePlacement> = Vec::new();
    v.push(PanePlacement::new(OverviewPane::PressureSummary, PanePriority::P0, PaneRect::new(0, 0, w, 3), true));
    v.push(PanePlacement::new(OverviewPane::ActionLane, PanePriority::P0, PaneRect::new(0, 3, w, 3), true));
    v.push(PanePlacement::new(OverviewPane::EwmaTrend, PanePriority::P1, PaneRect::new(0, 6, w, 3), true));
    v.push(PanePlacement::new(OverviewPane::RecentActivity, PanePriority::P1, PaneRect::new(0, 9, w, 3), true));
    v.push(PanePlacement::new(OverviewPane::BallastQuick, PanePriority::P1, PaneRect::new(0, 12, w, 2), true));
    v.push(PanePlacement::new(OverviewPane::ExtendedCounters, PanePriority::P2, PaneRect::new(0, 14, w, 2), rows >= 20));
    proof {
        assert(v@ =~= narrow_spec(cols, rows));
    }
    OverviewLayout { class: LayoutClass::Narrow, placements: v }
}

fn build_wide_layout(cols: u16, rows: u16) -> (r: OverviewLayout)
    ensures
        r.class == LayoutClass::Wide,
        r.placements@ == wide_spec(cols, rows),
{
    let w: u16 = if cols >= 1 { cols } else { 1 };
    let (l, r) = split_columns(w, 1);
    let rc: u16 = if l == u16::MAX { u16::MAX } else { l + 1 };
    let mut v: Vec<PanePlacement> = Vec::new();
    v.push(PanePlacement::new(OverviewPane::PressureSummary, PanePriority::P0, PaneRect::new(0, 0, l, 4), true));
    v.push(PanePlacement::new(OverviewPane::ActionLane, PanePriority::P0, PaneRect::new(rc, 0, r, 4), true));
    v.push(PanePlacement::new(OverviewPane::EwmaTrend, PanePriority::P1, PaneRect::new(0, 4, l, 4), true));
    v.push(PanePlacement::new(OverviewPane::RecentActivity, PanePriority::P1, PaneRect::new(rc, 4, r, 4), true));
    v.push(PanePlacement::new(OverviewPane::BallastQuick, PanePriority::P1, PaneRect::new(rc, 8, r, 3), true));
    v.push(PanePlacement::new(OverviewPane::ExtendedCounters, PanePriority::P2, PaneRect::new(0, 11, w, 3), rows >= 24));
    proof {
        assert(v@ =~= wide_spec(cols, rows));
    }
    OverviewLayout { class: LayoutClass::Wide, placements: v }
}

/// Pane placements of the overview screen for a terminal size.
pub fn build_overview_layout(cols: u16, rows: u16) -> (r: OverviewLayout)
    ensures
        cols < WIDE_THRESHOLD_COLS ==> r.class == LayoutClass::Narrow && r.placements@ == narrow_spec(cols, rows),
        cols >= WIDE_THRESHOLD_COLS ==> r.class == LayoutClass::Wide && r.placements@ == wide_spec(cols, rows),
{
    match classify_layout(cols) {
        LayoutClass::Narrow => build_narrow_layout(cols, rows),
        LayoutClass::Wide => build_wide_layout(cols, rows),
    }
}

/// Contrast profile.
#[derive(Debug, Clone, Copy, PartialEq, Eq, Structural)]
pub enum ContrastMode {
    Standard,
    High,
}

/// Motion profile.
#[derive(Debug, Clone, Copy, PartialEq, Eq, Structural)]
pub enum MotionMode {
    Full,
    Reduced,
}

/// Colour output.
#[derive(Debug, Clone, Copy, PartialEq, Eq, Structural)]
pub enum ColorMode {
    Enabled,
    Disabled,
}

/// Accessibility settings.
#[derive(Debug, Clone, Copy, PartialEq, Eq, Structural)]
pub struct AccessibilityProfile {
    pub contrast: ContrastMode,
    pub motion: MotionMode,
    pub color: ColorMode,
}

impl Default for AccessibilityProfile {
    fn default() -> (r: Self)
        ensures
            r == (AccessibilityProfile { contrast: ContrastMode::Standard, motion: MotionMode::Full, color: ColorMode::Enabled }),
    {
        AccessibilityProfile { contrast: ContrastMode::Standard, motion: MotionMode::Full, color: ColorMode::Enabled }
    }
}

impl AccessibilityProfile {
    /// Standard contrast and full motion; colour off when `no_color`.
    pub fn from_no_color_flag(no_color: bool) -> (r: Self)
        ensures
            r.contrast == ContrastMode::Standard,
            r.motion == MotionMode::Full,
            r.color == if no_color { ColorMode::Disabled } else { ColorMode::Enabled },
    {
        AccessibilityProfile {
            contrast: ContrastMode::Standard,
            motion: MotionMode::Full,
            color: if no_color { ColorMode::Disabled } else { ColorMode::Enabled },
        }
    }

    pub fn no_color(self) -> (r: bool)
        ensures
            r == (self.color == ColorMode::Disabled),
    {
        self.color == ColorMode::Disabled
    }

    pub fn reduced_motion(self) -> (r: bool)
        ensures
            r == (self.motion == MotionMode::Reduced),
    {
        self.motion == MotionMode::Reduced
    }
}

/// Semantic colour roles.
#[derive(Debug, Clone, Copy, PartialEq, Eq, Structural)]
pub enum SemanticToken {
    Accent,
    Success,
    Warning,
    Danger,
    Critical,
    Muted,
    Neutral,
}

/// A palette entry: role, colour name and text tag.
#[derive(Debug, Clone, Copy, PartialEq, Eq)]
pub struct PaletteEntry {
    pub token: SemanticToken,
    pub color_tag: &'static str,
    pub text_tag: &'static str,
}

impl PaletteEntry {
    pub fn new(token: SemanticToken, color_tag: &'static str, text_tag: &'static str) -> (r: Self)
        ensures
            r.token == token,
            r.color_tag == color_tag,
            r.text_tag == text_tag,
    {
        PaletteEntry { token, color_tag, text_tag }
    }
}

/// The standard palette, entry by entry.
pub open spec fn is_standard_palette(p: ThemePalette) -> bool {
        &&& p.accent.token == SemanticToken::Accent && p.accent.color_tag@ == "cyan"@ && p.accent.text_tag@ == "accent"@
        &&& p.success.token == SemanticToken::Success && p.success.color_tag@ == "green"@ && p.success.text_tag@ == "ok"@
        &&& p.warning.token == SemanticToken::Warning && p.warning.color_tag@ == "yellow"@ && p.warning.text_tag@ == "warn"@
        &&& p.danger.token == SemanticToken::Danger && p.danger.color_tag@ == "red"@ && p.danger.text_tag@ == "danger"@
        &&& p.critical.token == SemanticToken::Critical && p.critical.color_tag@ == "magenta"@ && p.critical.text_tag@ == "critical"@
        &&& p.muted.token == SemanticToken::Muted && p.muted.color_tag@ == "dark-grey"@ && p.muted.text_tag@ == "muted"@
        &&& p.neutral.token == SemanticToken::Neutral && p.neutral.color_tag@ == "white"@ && p.neutral.text_tag@ == "normal"@
}

/// The high-contrast palette, entry by entry.
pub open spec fn is_high_contrast_palette(p: ThemePalette) -> bool {
        &&& p.accent.token == SemanticToken::Accent && p.accent.color_tag@ == "bright-cyan"@ && p.accent.text_tag@ == "accent"@
        &&& p.success.token == SemanticToken::Success && p.success.color_tag@ == "bright-green"@ && p.success.text_tag@ == "ok"@
        &&& p.warning.token == SemanticToken::Warning && p.warning.color_tag@ == "bright-yellow"@ && p.warning.text_tag@ == "warn"@
        &&& p.danger.token == SemanticToken::Danger && p.danger.color_tag@ == "bright-red"@ && p.danger.text_tag@ == "danger"@
        &&& p.critical.token == SemanticToken::Critical && p.critical.color_tag@ == "bright-red"@ && p.critical.text_tag@ == "critical"@
        &&& p.muted.token == SemanticToken::Muted && p.muted.color_tag@ == "grey"@ && p.muted.text_tag@ == "muted"@
        &&& p.neutral.token == SemanticToken::Neutral && p.neutral.color_tag@ == "bright-white"@ && p.neutral.text_tag@ == "normal"@
}

/// The semantic palette.
#[derive(Debug, Clone, Copy, PartialEq, Eq)]
pub struct ThemePalette {
    pub accent: PaletteEntry,
    pub success: PaletteEntry,
    pub warning: PaletteEntry,
    pub danger: PaletteEntry,
    pub critical: PaletteEntry,
    pub muted: PaletteEntry,
    pub neutral: PaletteEntry,
}

impl ThemePalette {
    pub fn standard() -> (r: Self)
        ensures
            is_standard_palette(r),
    {
        ThemePalette {
            accent: PaletteEntry::new(SemanticToken::Accent, "cyan", "accent"),
            success: PaletteEntry::new(SemanticToken::Success, "green", "ok"),
            warning: PaletteEntry::new(SemanticToken::Warning, "yellow", "warn"),
            danger: PaletteEntry::new(SemanticToken::Danger, "red", "danger"),
            critical: PaletteEntry::new(SemanticToken::Critical, "magenta", "critical"),
            muted: PaletteEntry::new(SemanticToken::Muted, "dark-grey", "muted"),
            neutral: PaletteEntry::new(SemanticToken::Neutral, "white", "normal"),
        }
    }

    pub fn high_contrast() -> (r: Self)
        ensures
            is_high_contrast_palette(r),
    {
        ThemePalette {
            accent: PaletteEntry::new(SemanticToken::Accent, "bright-cyan", "accent"),
            success: PaletteEntry::new(SemanticToken::Success, "bright-green", "ok"),
            warning: PaletteEntry::new(SemanticToken::Warning, "bright-yellow", "warn"),
            danger: PaletteEntry::new(SemanticToken::Danger, "bright-red", "danger"),
            critical: PaletteEntry::new(SemanticToken::Critical, "bright-red", "critical"),
            muted: PaletteEntry::new(SemanticToken::Muted, "grey", "muted"),
            neutral: PaletteEntry::new(SemanticToken::Neutral, "bright-white", "normal"),
        }
    }

    pub fn from_contrast(mode: ContrastMode) -> (r: Self)
        ensures
            mode == ContrastMode::Standard ==> is_standard_palette(r),
            mode == ContrastMode::High ==> is_high_contrast_palette(r),
    {
        match mode {
            ContrastMode::Standard => ThemePalette::standard(),
            ContrastMode::High => ThemePalette::high_contrast(),
        }
    }

    /// Palette entry for a pressure level name.
    pub fn for_pressure_level(self, level: &str) -> (r: PaletteEntry)
        ensures
            r == if level@ == "green"@ {
                self.success
            } else if level@ == "yellow"@ {
                self.warning
            } else if level@ == "orange"@ || level@ == "red"@ {
                self.danger
            } else if level@ == "critical"@ {
                self.critical
            } else {
                self.neutral
            },
    {
        if str_eq(level, "green") {
            self.success
        } else if str_eq(level, "yellow") {
            self.warning
        } else if str_eq(level, "orange") || str_eq(level, "red") {
            self.danger
        } else if str_eq(level, "critical") {
            self.critical
        } else {
            self.neutral
        }
    }
}

/// Spacing in cells.
#[derive(Debug, Clone, Copy, PartialEq, Eq, Structural)]
pub struct SpacingScale {
    pub outer_padding: u16,
    pub inner_padding: u16,
    pub section_gap: u16,
    pub row_gap: u16,
}

impl SpacingScale {
    pub fn compact() -> (r: Self)
        ensures
            r == (SpacingScale { outer_padding: 0, inner_padding: 1, section_gap: 0, row_gap: 0 }),
    {
        SpacingScale { outer_padding: 0, inner_padding: 1, section_gap: 0, row_gap: 0 }
    }

    pub fn comfortable() -> (r: Self)
        ensures
            r == (SpacingScale { outer_padding: 1, inner_padding: 2, section_gap: 1, row_gap: 1 }),
    {
        SpacingScale { outer_padding: 1, inner_padding: 2, section_gap: 1, row_gap: 1 }
    }

    /// Compact below 100 columns, comfortable from there.
    pub fn for_columns(cols: u16) -> (r: Self)
        ensures
            cols < 100 ==> r == (SpacingScale { outer_padding: 0, inner_padding: 1, section_gap: 0, row_gap: 0 }),
            cols >= 100 ==> r == (SpacingScale { outer_padding: 1, inner_padding: 2, section_gap: 1, row_gap: 1 }),
    {
        if cols < 100 { SpacingScale::compact() } else { SpacingScale::comfortable() }
    }
}

/// Palette, spacing and accessibility together.
#[derive(Debug, Clone, Copy, PartialEq, Eq)]
pub struct Theme {
    pub accessibility: AccessibilityProfile,
    pub palette: ThemePalette,
    pub spacing: SpacingScale,
}

impl Theme {
    pub fn for_terminal(cols: u16, accessibility: AccessibilityProfile) -> (r: Self)
        ensures
            r.accessibility == accessibility,
            accessibility.contrast == ContrastMode::Standard ==> is_standard_palette(r.palette),
            accessibility.contrast == ContrastMode::High ==> is_high_contrast_palette(r.palette),
            cols < 100 ==> r.spacing == (SpacingScale { outer_padding: 0, inner_padding: 1, section_gap: 0, row_gap: 0 }),
            cols >= 100 ==> r.spacing == (SpacingScale { outer_padding: 1, inner_padding: 2, section_gap: 1, row_gap: 1 }),
    {
        Theme {
            palette: ThemePalette::from_contrast(accessibility.contrast),
            spacing: SpacingScale::for_columns(cols),
            accessibility,
        }
    }
}

/// `[label]` without colour, `[tag:label]` with it.
pub fn status_badge(label: &str, palette: PaletteEntry, accessibility: AccessibilityProfile) -> (r: String)
    ensures
        accessibility.color == ColorMode::Disabled ==> r@ == "["@ + label@ + "]"@,
        accessibility.color == ColorMode::Enabled ==> r@ == "["@ + palette.text_tag@ + ":"@ + label@ + "]"@,
{
    let mut s = String::from_str("[");
    if !accessibility.no_color() {
        s.append(palette.text_tag);
        s.append(":");
    }
    s.append(label);
    s.append("]");
    s
}

proof fn lemma_level_names_distinct()
    ensures
        "green"@ != "yellow"@ && "green"@ != "orange"@ && "green"@ != "red"@ && "green"@ != "critical"@,
        "yellow"@ != "orange"@ && "yellow"@ != "red"@ && "yellow"@ != "critical"@,
        "orange"@ != "red"@ && "orange"@ != "critical"@ && "red"@ != "critical"@,
{
    reveal_strlit("green");
    reveal_strlit("yellow");
    reveal_strlit("orange");
    reveal_strlit("red");
    reveal_strlit("critical");
    assert("green"@[0] == 'g' && "yellow"@[0] == 'y' && "orange"@[0] == 'o' && "red"@[0] == 'r'
        && "critical"@[0] == 'c');
}

/// Upper-case label of a level name; unknown names pass through.
pub fn level_label(level: &str) -> (r: &str)
    ensures
        level@ == "green"@ ==> r@ == "GREEN"@,
        level@ == "yellow"@ ==> r@ == "YELLOW"@,
        level@ == "orange"@ ==> r@ == "ORANGE"@,
        level@ == "red"@ ==> r@ == "RED"@,
        level@ == "critical"@ ==> r@ == "CRITICAL"@,
        !(level@ == "green"@ || level@ == "yellow"@ || level@ == "orange"@ || level@ == "red"@
            || level@ == "critical"@) ==> r@ == level@,
{
    proof {
        lemma_level_names_distinct();
    }
    if str_eq(level, "green") {
        "GREEN"
    } else if str_eq(level, "yellow") {
        "YELLOW"
    } else if str_eq(level, "orange") {
        "ORANGE"
    } else if str_eq(level, "red") {
        "RED"
    } else if str_eq(level, "critical") {
        "CRITICAL"
    } else {
        level
    }
}

/// Severity order of level names: green 0 up to critical 4; unknown names 0.
pub fn pressure_severity(level: &str) -> (r: u8)
    ensures
        r == if level@ == "yellow"@ { 1u8 } else if level@ == "orange"@ { 2u8 } else if level@ == "red"@ {
            3u8
        } else if level@ == "critical"@ {
            4u8
        } else {
            0u8
        },
{
    proof {
        lemma_level_names_distinct();
    }
    if str_eq(level, "green") {
        0
    } else if str_eq(level, "yellow") {
        1
    } else if str_eq(level, "orange") {
        2
    } else if str_eq(level, "red") {
        3
    } else if str_eq(level, "critical") {
        4
    } else {
        0
    }
}

/// Which dashboard runtime runs.
#[derive(Debug, Clone, Copy, PartialEq, Eq, Structural)]
pub enum DashboardRuntimeMode {
    NewCockpit,
    LegacyFallback,
}

impl Default for DashboardRuntimeMode {
    fn default() -> (r: Self)
        ensures
            r == DashboardRuntimeMode::NewCockpit,
    {
        DashboardRuntimeMode::NewCockpit
    }
}

/// One telemetry sample of the dashboard runtime.
#[derive(Debug, Clone, PartialEq, Eq)]
pub struct TelemetrySample {
    pub source: String,
    pub kind: String,
    pub detail: String,
}

impl TelemetrySample {
    pub fn new(source: &str, kind: &str, detail: &str) -> (r: Self)
        ensures
            r.source@ == source@ && r.kind@ == kind@ && r.detail@ == detail@,
    {
        TelemetrySample {
            source: String::from_str(source),
            kind: String::from_str(kind),
            detail: String::from_str(detail),
        }
    }
}

/// Receiver of telemetry samples, for embedders to implement.
pub trait TelemetryHook {
    fn record(&mut self, sample: TelemetrySample);
}

/// A hook that drops every sample.
#[derive(Debug, Clone, Copy, PartialEq, Eq, Default)]
pub struct NullTelemetryHook;

impl TelemetryHook for NullTelemetryHook {
    fn record(&mut self, sample: TelemetrySample) {
    }
}

} // verus!
