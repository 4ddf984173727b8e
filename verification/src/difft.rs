//! The structural backend adapter and the interactive diff flow: a pair of
//! snapshots is preprocessed, normalized, compared under the default cost
//! limits, and delivered as two styled panes for the two-column view.

use vstd::prelude::*;

use crate::backend::{
    compute, diff_pair, left_tags, limits_exceeded, outcome_matches, right_tags, side_marked,
    DiffReport,
};
use crate::errors::DiffError;
use crate::options::DisplayOptions;
use crate::pipeline::{apply_all_spec, Pipeline, PipelineTask};
use crate::render::{pane_color_of, to_pane, ColorTag, Pane, PaneColor};
use crate::pipeline::lemma_apply_all_from_input;
use crate::snapshot::{
    artifact_lines, field_pairs, field_within_limit, normalize, record_within_limit,
    split_lines_spec, yaml_of, FieldView, Snapshot,
};

verus! {

/// The structural diff backend, configured once: whether server-managed
/// bookkeeping metadata takes part in the comparison.
pub struct Difft {
    pub include_managed_fields: bool,
}

/// The interactive view's result: the two panes, and whether a configured
/// cost limit forced the coarse comparison — observable, never an error.
#[derive(Debug)]
pub struct PanePair {
    pub left: Pane,
    pub right: Pane,
    pub degraded: bool,
}

/// The task chain the adapter registers: the managed-fields removal unless
/// those fields were asked for.
pub open spec fn difft_tasks(include_managed_fields: bool) -> Seq<PipelineTask> {
    if include_managed_fields {
        Seq::<PipelineTask>::empty()
    } else {
        seq![PipelineTask::ExcludeManagedFields]
    }
}

/// The canonical text of a record after the task chain ran on it.
pub open spec fn processed_yaml(tasks: Seq<PipelineTask>, fields: Seq<FieldView>) -> Seq<char> {
    yaml_of(field_pairs(apply_all_spec(tasks, fields)))
}

/// A pane displays the given lines one to one: one span per display line,
/// carrying the line's text under the presentation colour of its tag.
pub open spec fn pane_renders(p: Pane, lines: Seq<Seq<char>>, tags: Seq<ColorTag>) -> bool {
    &&& p.lines@.len() == lines.len()
    &&& tags.len() == lines.len()
    &&& forall|i: int|
        0 <= i < lines.len() ==> {
            &&& (#[trigger] p.lines@[i])@.len() == 1
            &&& p.lines@[i]@[0].text@ == lines[i]
            &&& p.lines@[i]@[0].color == pane_color_of(tags[i])
        }
}

impl Difft {
    /// A structural backend adapter with the managed-fields policy resolved
    /// now, not per invocation.
    pub fn new(include_managed_fields: bool) -> (d: Difft)
        ensures
            d.include_managed_fields == include_managed_fields,
    {
        Difft { include_managed_fields }
    }

    /// The preprocessing chain this adapter runs before every comparison.
    fn build_pipeline(&self) -> (p: Pipeline)
        ensures
            p.tasks@ == difft_tasks(self.include_managed_fields),
    {
        let mut p = Pipeline::empty();
        if !self.include_managed_fields {
            p.add_task(PipelineTask::ExcludeManagedFields);
            proof {
                assert(p.tasks@ =~= seq![PipelineTask::ExcludeManagedFields]);
            }
        }
        p
    }

    /// Print-mode comparison of two already-materialized text artifacts
    /// under the caller's display configuration, whose cost limits bound
    /// the comparison. The status code is zero: exceeding a limit degrades
    /// the comparison, it never fails the invocation.
    pub fn diff(&self, minus_text: &String, plus_text: &String, options: &DisplayOptions) -> (r:
        DiffReport)
        ensures
            r.exit_code == 0,
            outcome_matches(
                r.outcome,
                split_lines_spec(minus_text@),
                split_lines_spec(plus_text@),
                options.graph_limit,
                options.byte_limit,
            ),
    {
        let minus_lines = artifact_lines(minus_text);
        let plus_lines = artifact_lines(plus_text);
        let outcome = compute(&minus_lines, &plus_lines, options.graph_limit, options.byte_limit);
        DiffReport { exit_code: 0, outcome }
    }

    /// Interactive comparison of the current snapshot against the previous
    /// one, under the caller's display configuration, whose cost limits
    /// bound the comparison. Both sides run through the preprocessing chain
    /// and are normalized; an absent previous snapshot is compared as the
    /// empty document. Success is owed: the serializer accepts every
    /// record, and exceeding a limit only flags the result as degraded.
    pub fn tui_diff(&self, pre: Option<&Snapshot>, cur: &Snapshot, options: &DisplayOptions) -> (r:
        Result<PanePair, DiffError>)
        requires
            record_within_limit(cur@),
            pre is Some ==> record_within_limit(pre->0@),
        ensures
            r is Ok,
            ({
                let panes = r->Ok_0;
                let tasks = difft_tasks(self.include_managed_fields);
                let before_text = match pre {
                    Some(p) => processed_yaml(tasks, p@),
                    None => Seq::<char>::empty(),
                };
                let after_text = processed_yaml(tasks, cur@);
                let a = split_lines_spec(before_text);
                let b = split_lines_spec(after_text);
                &&& pane_renders(panes.left, a, left_tags(a, b))
                &&& pane_renders(panes.right, b, right_tags(a, b))
                &&& panes.degraded == limits_exceeded(a, b, options.graph_limit, options.byte_limit)
            }),
    {
        let pipeline = self.build_pipeline();
        let mut after = cur.duplicate();
        let computed = match pre {
            Some(prev) => {
                let mut before = prev.duplicate();
                pipeline.process(&mut before, &mut after);
                proof {
                    lemma_processed_within_limit(pipeline.tasks@, prev@);
                    lemma_processed_within_limit(pipeline.tasks@, cur@);
                }
                let before_text = match normalize(&before) {
                    Ok(t) => t,
                    Err(e) => {
                        return Err(e);
                    },
                };
                let after_text = match normalize(&after) {
                    Ok(t) => t,
                    Err(e) => {
                        return Err(e);
                    },
                };
                diff_pair(
                    Some(&before_text),
                    &after_text,
                    true,
                    options.graph_limit,
                    options.byte_limit,
                )
            },
            None => {
                let mut before = Snapshot::empty();
                pipeline.process(&mut before, &mut after);
                proof {
                    lemma_processed_within_limit(pipeline.tasks@, cur@);
                }
                let after_text = match normalize(&after) {
                    Ok(t) => t,
                    Err(e) => {
                        return Err(e);
                    },
                };
                diff_pair(None, &after_text, true, options.graph_limit, options.byte_limit)
            },
        };
        match computed {
            Ok(outcome) => {
                let left_pane = to_pane(&outcome.left);
                let right_pane = to_pane(&outcome.right);
                proof {
                    let tasks = difft_tasks(self.include_managed_fields);
                    let before_text = match pre {
                        Some(p) => processed_yaml(tasks, p@),
                        None => Seq::<char>::empty(),
                    };
                    let a = split_lines_spec(before_text);
                    let b = split_lines_spec(processed_yaml(tasks, cur@));
                    lemma_pane_of_marked_side(left_pane, outcome.left@, a, left_tags(a, b));
                    lemma_pane_of_marked_side(right_pane, outcome.right@, b, right_tags(a, b));
                }
                Ok(PanePair { left: left_pane, right: right_pane, degraded: outcome.degraded })
            },
            Err(_) => Err(DiffError::Serialization),
        }
    }
}

/// A record within the serializable bound stays within it under the task
/// chain: the chain only removes fields.
proof fn lemma_processed_within_limit(tasks: Seq<PipelineTask>, fields: Seq<FieldView>)
    requires
        record_within_limit(fields),
    ensures
        record_within_limit(apply_all_spec(tasks, fields)),
{
    let processed = apply_all_spec(tasks, fields);
    lemma_apply_all_from_input(tasks, fields);
    assert forall|j: int| 0 <= j < processed.len() implies field_within_limit(
        #[trigger] processed[j],
    ) by {
        let f = processed[j];
        assert(fields.contains(f));
        let i = choose|i: int| 0 <= i < fields.len() && fields[i] == f;
        assert(field_within_limit(fields[i]));
    }
}

/// Glue: a pane built by `to_pane` from a side that follows the line-level
/// marking renders those lines under those tags.
proof fn lemma_pane_of_marked_side(
    p: Pane,
    side: Seq<Vec<crate::render::Span>>,
    lines: Seq<Seq<char>>,
    tags: Seq<ColorTag>,
)
    requires
        side_marked(side, lines, tags),
        p.lines@.len() == side.len(),
        forall|i: int| 0 <= i < side.len() ==> (#[trigger] p.lines@[i])@.len() == side[i]@.len(),
        forall|i: int, j: int|
            0 <= i < side.len() && 0 <= j < side[i]@.len() ==> (#[trigger] p.lines@[i]@[j]).text@
                == side[i]@[j].text@ && p.lines@[i]@[j].color == pane_color_of(side[i]@[j].color),
    ensures
        pane_renders(p, lines, tags),
{
    assert forall|i: int| 0 <= i < lines.len() implies {
        &&& (#[trigger] p.lines@[i])@.len() == 1
        &&& p.lines@[i]@[0].text@ == lines[i]
        &&& p.lines@[i]@[0].color == pane_color_of(tags[i])
    } by {
        assert(side[i]@.len() == 1);
        assert(p.lines@[i]@[0].text@ == side[i]@[0].text@);
    }
}

/// Law: structurally identical objects diff clean. When the two sides are
/// equal records after preprocessing, every span of both panes is neutral —
/// nothing is marked removed or added.
pub proof fn lemma_identical_objects_diff_clean(
    tasks: Seq<PipelineTask>,
    before: Seq<FieldView>,
    after: Seq<FieldView>,
    left: Pane,
    right: Pane,
)
    requires
        apply_all_spec(tasks, before) == apply_all_spec(tasks, after),
        ({
            let a = split_lines_spec(processed_yaml(tasks, before));
            let b = split_lines_spec(processed_yaml(tasks, after));
            pane_renders(left, a, left_tags(a, b)) && pane_renders(right, b, right_tags(a, b))
        }),
    ensures
        forall|i: int|
            0 <= i < left.lines@.len() ==> (#[trigger] left.lines@[i])@[0].color
                == PaneColor::Neutral,
        forall|i: int|
            0 <= i < right.lines@.len() ==> (#[trigger] right.lines@[i])@[0].color
                == PaneColor::Neutral,
{
    let a = split_lines_spec(processed_yaml(tasks, before));
    let b = split_lines_spec(processed_yaml(tasks, after));
    crate::backend::lemma_equal_sides_all_default(a, b);
}

} // verus!
