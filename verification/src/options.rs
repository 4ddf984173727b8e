//! Display configuration consumed by the diff backends. A configuration is
//! an immutable snapshot, assembled once per invocation and never mutated
//! mid-diff; the orchestration fixes the values the watcher always uses and
//! takes the terminal width from the caller, with a conservative default
//! when detection gave nothing.

use vstd::prelude::*;

verus! {

/// Cost bound on the structural comparison graph; above it the comparison
/// degrades instead of failing.
pub const DEFAULT_GRAPH_LIMIT: u64 = 3_000_000;

/// Cost bound on one side's size, held against the artifact's character
/// count with line breaks excluded; above it the comparison degrades
/// instead of failing.
pub const DEFAULT_BYTE_LIMIT: u64 = 1_000_000;

/// Width a tab stop expands to.
pub const DEFAULT_TAB_WIDTH: usize = 8;

/// Terminal width assumed when none could be detected from the environment.
pub const DEFAULT_DISPLAY_WIDTH: usize = 80;

/// Background theme the colours are chosen against.
#[derive(Clone, Copy, PartialEq, Eq, Structural, Debug)]
pub enum BackgroundColor {
    Dark,
    Light,
}

/// How the two sides are laid out.
#[derive(Clone, Copy, PartialEq, Eq, Structural, Debug)]
pub enum DisplayMode {
    Unified,
    SideBySide,
    SideBySideShowBoth,
}

/// The structural backend's display configuration, including the two cost
/// limits that bound the comparison.
#[derive(Debug)]
pub struct DisplayOptions {
    pub background_color: BackgroundColor,
    pub use_color: bool,
    pub print_unchanged: bool,
    pub tab_width: usize,
    pub display_mode: DisplayMode,
    pub display_width: usize,
    pub syntax_highlight: bool,
    pub in_vcs: bool,
    pub graph_limit: u64,
    pub byte_limit: u64,
}

/// The configuration the watcher hands the structural backend: coloured
/// side-by-side output on a dark theme, unchanged lines suppressed, syntax
/// highlighting on, version-control context assumed, default cost limits.
pub fn watch_display_options(display_width: usize) -> (o: DisplayOptions)
    ensures
        o.background_color == BackgroundColor::Dark,
        o.use_color == true,
        o.print_unchanged == false,
        o.tab_width == DEFAULT_TAB_WIDTH,
        o.display_mode == DisplayMode::SideBySide,
        o.display_width == display_width,
        o.syntax_highlight == true,
        o.in_vcs == true,
        o.graph_limit == DEFAULT_GRAPH_LIMIT,
        o.byte_limit == DEFAULT_BYTE_LIMIT,
{
    DisplayOptions {
        background_color: BackgroundColor::Dark,
        use_color: true,
        print_unchanged: false,
        tab_width: DEFAULT_TAB_WIDTH,
        display_mode: DisplayMode::SideBySide,
        display_width,
        syntax_highlight: true,
        in_vcs: true,
        graph_limit: DEFAULT_GRAPH_LIMIT,
        byte_limit: DEFAULT_BYTE_LIMIT,
    }
}

/// The width to lay the view out in: the detected terminal width when the
/// environment yielded one, the conservative default otherwise.
pub fn display_width_or_default(detected: Option<usize>) -> (w: usize)
    ensures
        detected is Some ==> w == detected->0,
        detected is None ==> w == DEFAULT_DISPLAY_WIDTH,
{
    match detected {
        Some(w) => w,
        None => DEFAULT_DISPLAY_WIDTH,
    }
}

/// Paging behaviour of the line-highlight backend's output.
#[derive(Clone, Copy, PartialEq, Eq, Structural, Debug)]
pub enum PagingMode {
    Always,
    QuitIfOneScreen,
    Never,
}

/// Identity of the process that invoked the diff, detected concurrently with
/// configuration loading. Detection is best effort and may not have finished
/// when the result is needed.
#[derive(Clone, Copy, PartialEq, Eq, Structural, Debug)]
pub enum CallerIdentity {
    Unknown,
    GitInvocation,
    Interactive,
}

/// Resolves the best-effort caller detection: a completed detection is
/// taken as is, a pending or failed one falls back to the conservative
/// unknown caller instead of blocking.
pub fn resolve_caller(detected: Option<CallerIdentity>) -> (c: CallerIdentity)
    ensures
        detected is Some ==> c == detected->0,
        detected is None ==> c == CallerIdentity::Unknown,
{
    match detected {
        Some(c) => c,
        None => CallerIdentity::Unknown,
    }
}

/// The line-highlight backend's configuration surface.
#[derive(Debug)]
pub struct LineHighlightOptions {
    pub paging: PagingMode,
    pub side_by_side: bool,
    pub use_color: bool,
    pub display_width: usize,
    pub tab_width: usize,
    pub caller: CallerIdentity,
}

/// The configuration the watcher hands the line-highlight backend: paging
/// off (the watcher owns the terminal), side-by-side layout on, colour on.
pub fn watch_line_highlight_options(display_width: usize, caller: CallerIdentity) -> (o:
    LineHighlightOptions)
    ensures
        o.paging == PagingMode::Never,
        o.side_by_side == true,
        o.use_color == true,
        o.display_width == display_width,
        o.tab_width == DEFAULT_TAB_WIDTH,
        o.caller == caller,
{
    LineHighlightOptions {
        paging: PagingMode::Never,
        side_by_side: true,
        use_color: true,
        display_width,
        tab_width: DEFAULT_TAB_WIDTH,
        caller,
    }
}

} // verus!
