//! Terminal-mode entry point over a captured snapshot history: the last two
//! snapshots are normalized and compared; a history of fewer than two
//! snapshots is a no-op that succeeds with no output.

use vstd::prelude::*;

use crate::backend::{compute, lines_equal, outcome_matches, DiffOutcome, DiffReport};
use crate::errors::DiffError;
use crate::options::{DEFAULT_BYTE_LIMIT, DEFAULT_GRAPH_LIMIT};
use crate::snapshot::{
    artifact_lines, field_pairs, normalize, record_within_limit, split_lines_spec, yaml_of,
    Snapshot,
};

verus! {

/// Compares the last two captured snapshots of a watched resource, without
/// preprocessing, under the default cost limits. With fewer than two
/// snapshots there is nothing to diff: the invocation succeeds with status
/// zero and no output. Otherwise the status code is zero exactly when the
/// two normalized artifacts are line-for-line identical. Success is owed:
/// the serializer accepts every record within the serializable bound.
pub fn diff(v: &Vec<Snapshot>) -> (r: Result<DiffReport, DiffError>)
    requires
        v@.len() >= 2 ==> record_within_limit(v@[v@.len() - 2]@) && record_within_limit(
            v@[v@.len() - 1]@,
        ),
    ensures
        r is Ok,
        ({
            let rep = r->Ok_0;
            if v@.len() < 2 {
                &&& rep.exit_code == 0
                &&& rep.outcome.left@.len() == 0
                &&& rep.outcome.right@.len() == 0
                &&& rep.outcome.degraded == false
            } else {
                let a = split_lines_spec(yaml_of(field_pairs(v@[v@.len() - 2]@)));
                let b = split_lines_spec(yaml_of(field_pairs(v@[v@.len() - 1]@)));
                &&& outcome_matches(rep.outcome, a, b, DEFAULT_GRAPH_LIMIT, DEFAULT_BYTE_LIMIT)
                &&& rep.exit_code == (if a == b {
                    0int
                } else {
                    1int
                })
            }
        }),
{
    if v.len() < 2 {
        return Ok(
            DiffReport {
                exit_code: 0,
                outcome: DiffOutcome { left: Vec::new(), right: Vec::new(), degraded: false },
            },
        );
    }
    let minus_snap = &v[v.len() - 2];
    let plus_snap = &v[v.len() - 1];
    let minus_text = match normalize(minus_snap) {
        Ok(t) => t,
        Err(e) => {
            return Err(e);
        },
    };
    let plus_text = match normalize(plus_snap) {
        Ok(t) => t,
        Err(e) => {
            return Err(e);
        },
    };
    let minus_lines = artifact_lines(&minus_text);
    let plus_lines = artifact_lines(&plus_text);
    let outcome = compute(&minus_lines, &plus_lines, DEFAULT_GRAPH_LIMIT, DEFAULT_BYTE_LIMIT);
    let exit_code: i32 = if lines_equal(&minus_lines, &plus_lines) {
        0
    } else {
        1
    };
    Ok(DiffReport { exit_code, outcome })
}

} // verus!
