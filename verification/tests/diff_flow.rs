use kubectl_watch::backend::{compute, diff_pair, lines_equal};
use kubectl_watch::diff::diff;
use kubectl_watch::difft::Difft;
use kubectl_watch::errors::DiffError;
use kubectl_watch::options::{watch_display_options, DisplayOptions};
use kubectl_watch::pipeline::{Pipeline, PipelineTask};
use kubectl_watch::render::{ColorTag, PaneColor, Span};
use kubectl_watch::snapshot::{normalize, Field, Snapshot};

fn opts() -> DisplayOptions {
    watch_display_options(80)
}

fn snap(fields: &[(&str, &str)]) -> Snapshot {
    Snapshot {
        fields: fields
            .iter()
            .map(|(k, v)| Field { key: k.to_string(), value: v.to_string() })
            .collect(),
    }
}

fn keys(s: &Snapshot) -> Vec<String> {
    s.fields.iter().map(|f| f.key.clone()).collect()
}

fn values(s: &Snapshot) -> Vec<String> {
    s.fields.iter().map(|f| f.value.clone()).collect()
}

#[test]
fn normalize_produces_canonical_yaml() {
    let s = snap(&[("name", "a")]);
    let text = normalize(&s).unwrap();
    assert_eq!(text, "name: a\n");
}

#[test]
fn normalize_is_stable_for_identical_snapshots() {
    let s1 = snap(&[("name", "a"), ("kind", "Pod")]);
    let s2 = snap(&[("name", "a"), ("kind", "Pod")]);
    assert_eq!(normalize(&s1).unwrap(), normalize(&s2).unwrap());
}

#[test]
fn normalize_keeps_declaration_order() {
    let s = snap(&[("b", "2"), ("a", "1")]);
    assert_eq!(normalize(&s).unwrap(), "b: '2'\na: '1'\n");
}

#[test]
fn pipeline_removes_managed_fields_and_nothing_else() {
    let mut before = snap(&[("name", "a"), ("managedFields", "m1"), ("kind", "Pod")]);
    let mut after = snap(&[("managedFields", "m2"), ("name", "b")]);
    let mut p = Pipeline::empty();
    p.add_task(PipelineTask::ExcludeManagedFields);
    p.process(&mut before, &mut after);
    assert_eq!(keys(&before), vec!["name", "kind"]);
    assert_eq!(values(&before), vec!["a", "Pod"]);
    assert_eq!(keys(&after), vec!["name"]);
    assert_eq!(values(&after), vec!["b"]);
}

#[test]
fn pipeline_is_idempotent() {
    let mut before = snap(&[("name", "a"), ("managedFields", "m1"), ("kind", "Pod")]);
    let mut after = snap(&[("managedFields", "m2"), ("name", "b")]);
    let mut p = Pipeline::empty();
    p.add_task(PipelineTask::ExcludeManagedFields);
    p.process(&mut before, &mut after);
    let before_once = normalize(&before).unwrap();
    let after_once = normalize(&after).unwrap();
    p.process(&mut before, &mut after);
    assert_eq!(normalize(&before).unwrap(), before_once);
    assert_eq!(normalize(&after).unwrap(), after_once);
}

#[test]
fn empty_pipeline_changes_nothing() {
    let mut before = snap(&[("name", "a"), ("managedFields", "m1")]);
    let mut after = snap(&[("name", "b")]);
    let p = Pipeline::empty();
    p.process(&mut before, &mut after);
    assert_eq!(keys(&before), vec!["name", "managedFields"]);
    assert_eq!(keys(&after), vec!["name"]);
}

#[test]
fn single_snapshot_diff_is_noop() {
    let v = vec![snap(&[("name", "a")])];
    let rep = diff(&v).unwrap();
    assert_eq!(rep.exit_code, 0);
    assert!(rep.outcome.left.is_empty());
    assert!(rep.outcome.right.is_empty());
    assert!(!rep.outcome.degraded);
}

#[test]
fn empty_history_diff_is_noop() {
    let v: Vec<Snapshot> = Vec::new();
    let rep = diff(&v).unwrap();
    assert_eq!(rep.exit_code, 0);
    assert!(rep.outcome.left.is_empty());
}

#[test]
fn diff_exit_code_reports_differences() {
    let same = vec![snap(&[("name", "a")]), snap(&[("name", "a")])];
    assert_eq!(diff(&same).unwrap().exit_code, 0);
    let changed = vec![snap(&[("name", "a")]), snap(&[("name", "b")])];
    assert_eq!(diff(&changed).unwrap().exit_code, 1);
}

#[test]
fn diff_uses_last_two_snapshots() {
    let v = vec![
        snap(&[("name", "old")]),
        snap(&[("name", "a")]),
        snap(&[("name", "a")]),
    ];
    assert_eq!(diff(&v).unwrap().exit_code, 0);
}

#[test]
fn missing_before_treated_as_empty_document() {
    let after = "name: a".to_string();
    let outcome = diff_pair(None, &after, true, 1_000_000, 1_000_000).unwrap();
    assert_eq!(outcome.left.len(), 1);
    assert_eq!(outcome.left[0][0].text, "");
    assert_eq!(outcome.right.len(), 1);
    assert_eq!(outcome.right[0][0].text, "name: a");
    assert_eq!(outcome.right[0][0].color, ColorTag::Added);
}

#[test]
fn missing_before_without_policy_is_input_error() {
    let after = "name: a".to_string();
    let err = diff_pair(None, &after, false, 1_000_000, 1_000_000).unwrap_err();
    assert_eq!(err, DiffError::BackendInput);
}

#[test]
fn over_limit_is_degraded_not_an_error() {
    let a = vec!["alpha".to_string(), "beta".to_string()];
    let b = vec!["alpha".to_string(), "gamma".to_string()];
    let outcome = compute(&a, &b, 0, 0);
    assert!(outcome.degraded);
    // the comparison still ran to completion
    assert_eq!(outcome.left.len(), 2);
    assert_eq!(outcome.left[0][0].color, ColorTag::Default);
    assert_eq!(outcome.left[1][0].color, ColorTag::Removed);
    let within = compute(&a, &b, 1_000_000, 1_000_000);
    assert!(!within.degraded);
}

#[test]
fn byte_limit_counts_content_size() {
    let a = vec!["x".repeat(64)];
    let b = vec!["x".repeat(64)];
    assert!(compute(&a, &b, 1_000, 63).degraded);
    assert!(!compute(&a, &b, 1_000, 64).degraded);
}

#[test]
fn lines_equal_matches_content() {
    let a = vec!["a".to_string(), "b".to_string()];
    let b = vec!["a".to_string(), "b".to_string()];
    let c = vec!["a".to_string()];
    assert!(lines_equal(&a, &b));
    assert!(!lines_equal(&a, &c));
}

#[test]
fn difft_diff_splits_artifacts_into_lines() {
    let d = Difft::new(true);
    let rep = d.diff(&"a\nb".to_string(), &"a\nc".to_string(), &opts());
    assert_eq!(rep.exit_code, 0);
    assert_eq!(rep.outcome.left.len(), 2);
    assert_eq!(rep.outcome.left[0][0].text, "a");
    assert_eq!(rep.outcome.left[0][0].color, ColorTag::Default);
    assert_eq!(rep.outcome.left[1][0].text, "b");
    assert_eq!(rep.outcome.left[1][0].color, ColorTag::Removed);
    assert_eq!(rep.outcome.right[1][0].text, "c");
    assert_eq!(rep.outcome.right[1][0].color, ColorTag::Added);
}

#[test]
fn managed_fields_scenario() {
    let before = snap(&[("name", "a"), ("managedFields", "m1")]);
    let after = snap(&[("name", "b"), ("managedFields", "m2")]);

    // task enabled: only the name change is visible
    let with_task = Difft::new(false);
    let panes = with_task.tui_diff(Some(&before), &after, &opts()).unwrap();
    let (left, right) = (panes.left, panes.right);
    let left_marked: Vec<&str> = left
        .lines
        .iter()
        .filter(|l| l[0].color == PaneColor::Red)
        .map(|l| l[0].text.as_str())
        .collect();
    assert_eq!(left_marked, vec!["name: a"]);
    let right_marked: Vec<&str> = right
        .lines
        .iter()
        .filter(|l| l[0].color == PaneColor::Green)
        .map(|l| l[0].text.as_str())
        .collect();
    assert_eq!(right_marked, vec!["name: b"]);

    // task disabled: the managed-fields difference shows as well
    let without_task = Difft::new(true);
    let left2 = without_task.tui_diff(Some(&before), &after, &opts()).unwrap().left;
    let left2_marked: Vec<&str> = left2
        .lines
        .iter()
        .filter(|l| l[0].color == PaneColor::Red)
        .map(|l| l[0].text.as_str())
        .collect();
    assert_eq!(left2_marked, vec!["name: a", "managedFields: m1"]);
}

#[test]
fn identical_objects_diff_clean() {
    // the sides differ only in the metadata the enabled task removes
    let before = snap(&[("name", "a"), ("managedFields", "m1")]);
    let after = snap(&[("name", "a"), ("managedFields", "m2")]);
    let d = Difft::new(false);
    let panes = d.tui_diff(Some(&before), &after, &opts()).unwrap();
    let (left, right) = (panes.left, panes.right);
    assert!(!panes.degraded);
    assert!(!left.lines.is_empty());
    for line in left.lines.iter().chain(right.lines.iter()) {
        for span in line.iter() {
            assert_eq!(span.color, PaneColor::Neutral);
        }
    }
}

#[test]
fn tui_diff_without_prior_snapshot_marks_everything_added() {
    let cur = snap(&[("name", "a")]);
    let d = Difft::new(false);
    let panes = d.tui_diff(None, &cur, &opts()).unwrap();
    let (left, right) = (panes.left, panes.right);
    assert_eq!(left.lines.len(), 1);
    assert_eq!(left.lines[0][0].text, "");
    // "name: a\n" splits into the content line and the empty tail
    assert_eq!(right.lines.len(), 2);
    assert_eq!(right.lines[0][0].text, "name: a");
    assert_eq!(right.lines[0][0].color, PaneColor::Green);
}

#[test]
fn span_structure_is_preserved() {
    let line = vec![
        Span { text: "un".to_string(), color: ColorTag::Default },
        Span { text: "changed ".to_string(), color: ColorTag::Default },
        Span { text: "new".to_string(), color: ColorTag::Added },
    ];
    let result = vec![line];
    let pane = kubectl_watch::render::to_pane(&result);
    assert_eq!(pane.lines[0].len(), 3);
    assert_eq!(pane.lines[0][0].text, "un");
    assert_eq!(pane.lines[0][2].color, PaneColor::Green);
}

#[test]
fn tui_diff_surfaces_degradation_under_tight_limits() {
    let mut tight = watch_display_options(80);
    tight.graph_limit = 0;
    let before = snap(&[("name", "a")]);
    let after = snap(&[("name", "b")]);
    let d = Difft::new(false);
    let panes = d.tui_diff(Some(&before), &after, &tight).unwrap();
    // the limit only flags the outcome; the comparison still ran
    assert!(panes.degraded);
    assert_eq!(panes.left.lines.len(), 2);
}

#[test]
fn print_diff_respects_configured_byte_limit() {
    let mut tight = watch_display_options(80);
    tight.byte_limit = 2;
    let d = Difft::new(true);
    let rep = d.diff(&"abc".to_string(), &"abc".to_string(), &tight);
    assert!(rep.outcome.degraded);
    assert_eq!(rep.exit_code, 0);
}
