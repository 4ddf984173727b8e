use kubectl_watch::options::{
    display_width_or_default, resolve_caller, watch_display_options, watch_line_highlight_options,
    BackgroundColor, CallerIdentity, DisplayMode, PagingMode, DEFAULT_BYTE_LIMIT,
    DEFAULT_DISPLAY_WIDTH, DEFAULT_GRAPH_LIMIT, DEFAULT_TAB_WIDTH,
};
use kubectl_watch::render::{line_text, print_lines, side_by_side_lines, to_pane, ColorTag, Span};

fn span(text: &str, color: ColorTag) -> Span {
    Span { text: text.to_string(), color }
}

#[test]
fn line_text_concatenates_spans_in_order() {
    let line = vec![
        span("kind: ", ColorTag::Default),
        span("Pod", ColorTag::Removed),
    ];
    assert_eq!(line_text(&line), "kind: Pod");
    let empty: Vec<Span> = Vec::new();
    assert_eq!(line_text(&empty), "");
}

#[test]
fn render_form_round_trips_to_print_form() {
    let result = vec![
        vec![span("a", ColorTag::Default), span("b", ColorTag::Added)],
        vec![span("c", ColorTag::Removed)],
        vec![],
    ];
    let printed = print_lines(&result);
    let pane = to_pane(&result);
    assert_eq!(printed.len(), pane.lines.len());
    for (text, line) in printed.iter().zip(pane.lines.iter()) {
        let joined: String = line.iter().map(|s| s.text.as_str()).collect();
        assert_eq!(&joined, text);
    }
    assert_eq!(printed, vec!["ab", "c", ""]);
}

#[test]
fn display_options_match_the_watcher_defaults() {
    let o = watch_display_options(120);
    assert_eq!(o.background_color, BackgroundColor::Dark);
    assert!(o.use_color);
    assert!(!o.print_unchanged);
    assert_eq!(o.tab_width, DEFAULT_TAB_WIDTH);
    assert_eq!(o.display_mode, DisplayMode::SideBySide);
    assert_eq!(o.display_width, 120);
    assert!(o.syntax_highlight);
    assert!(o.in_vcs);
    assert_eq!(o.graph_limit, DEFAULT_GRAPH_LIMIT);
    assert_eq!(o.byte_limit, DEFAULT_BYTE_LIMIT);
}

#[test]
fn width_detection_falls_back_to_default() {
    assert_eq!(display_width_or_default(Some(143)), 143);
    assert_eq!(display_width_or_default(None), DEFAULT_DISPLAY_WIDTH);
}

#[test]
fn caller_detection_falls_back_to_unknown() {
    assert_eq!(
        resolve_caller(Some(CallerIdentity::GitInvocation)),
        CallerIdentity::GitInvocation
    );
    assert_eq!(resolve_caller(None), CallerIdentity::Unknown);
}

#[test]
fn line_highlight_options_disable_paging() {
    let o = watch_line_highlight_options(100, CallerIdentity::Unknown);
    assert_eq!(o.paging, PagingMode::Never);
    assert!(o.side_by_side);
    assert!(o.use_color);
    assert_eq!(o.display_width, 100);
    assert_eq!(o.tab_width, DEFAULT_TAB_WIDTH);
}

#[test]
fn default_limits_are_in_force() {
    assert_eq!(DEFAULT_GRAPH_LIMIT, 3_000_000);
    assert_eq!(DEFAULT_BYTE_LIMIT, 1_000_000);
}

#[test]
fn side_by_side_layout_pads_and_joins() {
    let left = vec!["a".to_string(), "bb".to_string()];
    let right = vec!["x".to_string()];
    let lines = side_by_side_lines(&left, &right, 4);
    assert_eq!(lines, vec!["a    | x", "bb   | "]);
}

#[test]
fn side_by_side_layout_keeps_long_lines_whole() {
    let left = vec!["abcdef".to_string()];
    let right = vec!["y".to_string()];
    let lines = side_by_side_lines(&left, &right, 4);
    assert_eq!(lines, vec!["abcdef | y"]);
}
