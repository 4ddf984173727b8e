//! Diff backend adapter. The precise structural engine the design treats as
//! an external collaborator is not available as a dependency, so the adapter
//! itself performs the comparison: the bounded, always-terminating
//! line-level strategy that also serves as the degradation fallback. The
//! adapter bounds a comparison's cost with a byte limit and a graph limit,
//! flags the outcome as degraded instead of failing when a limit is
//! exceeded, and produces the structured render form (one line of
//! colour-tagged spans per input line, for each side).

use vstd::prelude::*;

use crate::errors::DiffError;
use crate::render::{text_views, ColorTag, Span, SpanView};
use crate::snapshot::{artifact_lines, split_lines_spec};

verus! {

/// The outcome of one comparison: a render-form result per side, and whether
/// a cost limit forced the coarse strategy. Degradation is observable but is
/// not an error.
#[derive(Debug)]
pub struct DiffOutcome {
    pub left: Vec<Vec<Span>>,
    pub right: Vec<Vec<Span>>,
    pub degraded: bool,
}

/// Colour owed to line `i` of the before side: unchanged when the after side
/// has an equal line at the same position, removed otherwise.
pub open spec fn left_tag(a: Seq<Seq<char>>, b: Seq<Seq<char>>, i: int) -> ColorTag {
    if i < b.len() && a[i] == b[i] {
        ColorTag::Default
    } else {
        ColorTag::Removed
    }
}

/// Colour owed to line `i` of the after side: unchanged when the before side
/// has an equal line at the same position, added otherwise.
pub open spec fn right_tag(a: Seq<Seq<char>>, b: Seq<Seq<char>>, i: int) -> ColorTag {
    if i < a.len() && a[i] == b[i] {
        ColorTag::Default
    } else {
        ColorTag::Added
    }
}

/// A rendered side follows the coarse line-level comparison: one span per
/// line, carrying the line's text unchanged under the owed colour.
pub open spec fn side_marked(
    side: Seq<Vec<Span>>,
    lines: Seq<Seq<char>>,
    tags: Seq<ColorTag>,
) -> bool {
    &&& side.len() == lines.len()
    &&& tags.len() == lines.len()
    &&& forall|i: int|
        0 <= i < lines.len() ==> {
            &&& (#[trigger] side[i])@.len() == 1
            &&& side[i]@[0].text@ == lines[i]
            &&& side[i]@[0].color == tags[i]
        }
}

/// The colours owed to the before side of a comparison of `a` against `b`.
pub open spec fn left_tags(a: Seq<Seq<char>>, b: Seq<Seq<char>>) -> Seq<ColorTag> {
    Seq::new(a.len(), |i: int| left_tag(a, b, i))
}

/// The colours owed to the after side of a comparison of `a` against `b`.
pub open spec fn right_tags(a: Seq<Seq<char>>, b: Seq<Seq<char>>) -> Seq<ColorTag> {
    Seq::new(b.len(), |i: int| right_tag(a, b, i))
}

/// The size measure of one side, held against the byte limit: the total
/// character count of its lines, line breaks excluded. Plain characters,
/// not encoded bytes, are the unit.
pub open spec fn total_len(lines: Seq<Seq<char>>) -> nat
    decreases lines.len(),
{
    if lines.len() == 0 {
        0
    } else {
        total_len(lines.drop_last()) + lines.last().len()
    }
}

/// A cost limit is exceeded: one side's character count outgrows the byte
/// limit, or the pairing graph of the two sides (one node per line pair)
/// outgrows the graph limit.
pub open spec fn limits_exceeded(
    a: Seq<Seq<char>>,
    b: Seq<Seq<char>>,
    graph_limit: u64,
    byte_limit: u64,
) -> bool {
    ||| total_len(a) > byte_limit
    ||| total_len(b) > byte_limit
    ||| a.len() * b.len() > graph_limit
}

proof fn lemma_total_len_prefix_monotonic(lines: Seq<Seq<char>>, i: int)
    requires
        0 <= i <= lines.len(),
    ensures
        total_len(lines.take(i)) <= total_len(lines),
    decreases lines.len() - i,
{
    if i < lines.len() {
        lemma_total_len_prefix_monotonic(lines, i + 1);
        assert(lines.take(i + 1).drop_last() =~= lines.take(i));
    } else {
        assert(lines.take(i) =~= lines);
    }
}

/// Decides whether one side outgrows the byte limit.
fn exceeds_byte_limit(lines: &Vec<String>, limit: u64) -> (r: bool)
    ensures
        r == (total_len(text_views(lines@)) > limit),
{
    let ghost views = text_views(lines@);
    let mut sum: u128 = 0;
    let mut i: usize = 0;
    while i < lines.len()
        invariant
            i <= lines.len(),
            views == text_views(lines@),
            sum == total_len(views.take(i as int)),
            sum <= limit,
        decreases lines.len() - i,
    {
        let n = lines[i].as_str().unicode_len();
        proof {
            assert(views.take(i + 1).drop_last() =~= views.take(i as int));
            assert(views.take(i + 1).last() == views[i as int]);
        }
        sum = sum + n as u128;
        i = i + 1;
        if sum > limit as u128 {
            proof {
                lemma_total_len_prefix_monotonic(views, i as int);
            }
            return true;
        }
    }
    proof {
        assert(views.take(lines@.len() as int) =~= views);
    }
    false
}

/// The coarse line-level comparison: lines are paired by position; an equal
/// pair is unchanged, everything else is removed on the before side and
/// added on the after side. Each output line is exactly one span carrying
/// the input line's text.
pub fn compare_lines(a: &Vec<String>, b: &Vec<String>) -> (r: (Vec<Vec<Span>>, Vec<Vec<Span>>))
    ensures
        side_marked(r.0@, text_views(a@), left_tags(text_views(a@), text_views(b@))),
        side_marked(r.1@, text_views(b@), right_tags(text_views(a@), text_views(b@))),
{
    let ghost av = text_views(a@);
    let ghost bv = text_views(b@);
    let mut left: Vec<Vec<Span>> = Vec::new();
    let mut i: usize = 0;
    while i < a.len()
        invariant
            i <= a.len(),
            av == text_views(a@),
            bv == text_views(b@),
            left@.len() == i,
            forall|k: int|
                0 <= k < i ==> {
                    &&& (#[trigger] left@[k])@.len() == 1
                    &&& left@[k]@[0].text@ == av[k]
                    &&& left@[k]@[0].color == left_tag(av, bv, k)
                },
        decreases a.len() - i,
    {
        let unchanged = i < b.len() && a[i] == b[i];
        let color = if unchanged {
            ColorTag::Default
        } else {
            ColorTag::Removed
        };
        let mut line: Vec<Span> = Vec::new();
        line.push(Span { text: a[i].clone(), color });
        left.push(line);
        i = i + 1;
    }
    let mut right: Vec<Vec<Span>> = Vec::new();
    let mut j: usize = 0;
    while j < b.len()
        invariant
            j <= b.len(),
            av == text_views(a@),
            bv == text_views(b@),
            right@.len() == j,
            forall|k: int|
                0 <= k < j ==> {
                    &&& (#[trigger] right@[k])@.len() == 1
                    &&& right@[k]@[0].text@ == bv[k]
                    &&& right@[k]@[0].color == right_tag(av, bv, k)
                },
        decreases b.len() - j,
    {
        let unchanged = j < a.len() && a[j] == b[j];
        let color = if unchanged {
            ColorTag::Default
        } else {
            ColorTag::Added
        };
        let mut line: Vec<Span> = Vec::new();
        line.push(Span { text: b[j].clone(), color });
        right.push(line);
        j = j + 1;
    }
    (left, right)
}

/// Compares two artifacts given as line sequences. The operation is total:
/// inputs over the configured limits are still compared (with the coarse
/// strategy) and the outcome is flagged degraded, never turned into an
/// error.
pub fn compute(
    before: &Vec<String>,
    after: &Vec<String>,
    graph_limit: u64,
    byte_limit: u64,
) -> (r: DiffOutcome)
    ensures
        r.degraded == limits_exceeded(
            text_views(before@),
            text_views(after@),
            graph_limit,
            byte_limit,
        ),
        side_marked(
            r.left@,
            text_views(before@),
            left_tags(text_views(before@), text_views(after@)),
        ),
        side_marked(
            r.right@,
            text_views(after@),
            right_tags(text_views(before@), text_views(after@)),
        ),
{
    let over_bytes = exceeds_byte_limit(before, byte_limit) || exceeds_byte_limit(
        after,
        byte_limit,
    );
    let la = before.len() as u128;
    let lb = after.len() as u128;
    proof {
        assert(la * lb <= (u64::MAX as u128) * (u64::MAX as u128)) by (nonlinear_arith)
            requires
                0 <= la <= u64::MAX as u128,
                0 <= lb <= u64::MAX as u128,
        ;
    }
    let over_graph = la * lb > graph_limit as u128;
    let degraded = over_bytes || over_graph;
    let (left, right) = compare_lines(before, after);
    DiffOutcome { left, right, degraded }
}

/// Decides whether the two sides are line-for-line identical; the backend's
/// status code reports it.
pub fn lines_equal(a: &Vec<String>, b: &Vec<String>) -> (r: bool)
    ensures
        r == (text_views(a@) == text_views(b@)),
{
    if a.len() != b.len() {
        return false;
    }
    let mut i: usize = 0;
    while i < a.len()
        invariant
            i <= a.len(),
            a@.len() == b@.len(),
            forall|k: int| 0 <= k < i ==> text_views(a@)[k] == text_views(b@)[k],
        decreases a.len() - i,
    {
        if !(a[i] == b[i]) {
            assert(text_views(a@)[i as int] != text_views(b@)[i as int]);
            return false;
        }
        i = i + 1;
    }
    proof {
        assert(text_views(a@) =~= text_views(b@));
    }
    true
}

/// An outcome is the comparison of line sequences `a` and `b` under the
/// given limits.
pub open spec fn outcome_matches(
    o: DiffOutcome,
    a: Seq<Seq<char>>,
    b: Seq<Seq<char>>,
    graph_limit: u64,
    byte_limit: u64,
) -> bool {
    &&& o.degraded == limits_exceeded(a, b, graph_limit, byte_limit)
    &&& side_marked(o.left@, a, left_tags(a, b))
    &&& side_marked(o.right@, b, right_tags(a, b))
}

/// Compares a pair of text artifacts where the before side may be absent.
/// Under the missing-as-empty policy an absent before side is compared as
/// the empty document instead of failing; without the policy an absent side
/// is a backend input error, stated here and nowhere else.
pub fn diff_pair(
    before: Option<&String>,
    after: &String,
    missing_as_empty: bool,
    graph_limit: u64,
    byte_limit: u64,
) -> (r: Result<DiffOutcome, DiffError>)
    ensures
        match r {
            Ok(o) => {
                let a = match before {
                    Some(t) => split_lines_spec(t@),
                    None => split_lines_spec(Seq::<char>::empty()),
                };
                let b = split_lines_spec(after@);
                (before is Some || missing_as_empty) && outcome_matches(
                    o,
                    a,
                    b,
                    graph_limit,
                    byte_limit,
                )
            },
            Err(e) => before is None && !missing_as_empty && e == DiffError::BackendInput,
        },
{
    let after_lines = artifact_lines(after);
    match before {
        Some(text) => {
            let before_lines = artifact_lines(text);
            Ok(compute(&before_lines, &after_lines, graph_limit, byte_limit))
        },
        None => {
            if missing_as_empty {
                let empty = String::new();
                let before_lines = artifact_lines(&empty);
                Ok(compute(&before_lines, &after_lines, graph_limit, byte_limit))
            } else {
                Err(DiffError::BackendInput)
            }
        },
    }
}

/// Law: comparing two line-for-line identical sides owes every line the
/// Default colour — the diff of equal content marks nothing as removed or
/// added.
pub proof fn lemma_equal_sides_all_default(a: Seq<Seq<char>>, b: Seq<Seq<char>>)
    requires
        a == b,
    ensures
        forall|i: int| 0 <= i < a.len() ==> left_tags(a, b)[i] == ColorTag::Default,
        forall|i: int| 0 <= i < b.len() ==> right_tags(a, b)[i] == ColorTag::Default,
{
}

/// Law: the outcome of comparing two identical artifacts holds no removed
/// or added span on either side.
pub proof fn lemma_equal_artifacts_outcome_clean(
    o: DiffOutcome,
    a: Seq<Seq<char>>,
    b: Seq<Seq<char>>,
    graph_limit: u64,
    byte_limit: u64,
)
    requires
        a == b,
        outcome_matches(o, a, b, graph_limit, byte_limit),
    ensures
        forall|i: int|
            0 <= i < o.left@.len() ==> (#[trigger] o.left@[i])@[0].color == ColorTag::Default,
        forall|i: int|
            0 <= i < o.right@.len() ==> (#[trigger] o.right@[i])@[0].color == ColorTag::Default,
{
    lemma_equal_sides_all_default(a, b);
}

/// The outcome of one print-mode invocation: the backend's status code and
/// its structured result.
#[derive(Debug)]
pub struct DiffReport {
    pub exit_code: i32,
    pub outcome: DiffOutcome,
}

} // verus!
