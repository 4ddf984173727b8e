//! Preprocessing pipeline: an ordered chain of pure field-removal tasks
//! applied to both sides of a pair before diffing. Registration order is
//! execution order; every task is a filter on the record, so the pipeline is
//! idempotent and removes exactly the fields its tasks are responsible for.

use vstd::prelude::*;

use crate::snapshot::{fields_view, Field, FieldView, Snapshot};

verus! {

/// One preprocessing task. Each task is a pure transformation of the record:
/// it may drop fields, never invent or reorder them.
#[derive(Clone, Copy, PartialEq, Eq, Structural, Debug)]
pub enum PipelineTask {
    /// Drop the server-populated bookkeeping metadata, which is noise for a
    /// human diff.
    ExcludeManagedFields,
}

/// The key a task removes.
pub open spec fn task_key(t: PipelineTask) -> Seq<char> {
    match t {
        PipelineTask::ExcludeManagedFields => "managedFields"@,
    }
}

/// The predicate keeping every field whose key is not `key`.
pub open spec fn keep_pred(key: Seq<char>) -> spec_fn(FieldView) -> bool {
    |f: FieldView| f.key != key
}

/// The record predicate a task keeps: every field whose key is not the
/// task's key.
pub open spec fn task_pred(t: PipelineTask) -> spec_fn(FieldView) -> bool {
    keep_pred(task_key(t))
}

/// What one task does to a record: it keeps, in order, exactly the fields
/// the task is not responsible for removing.
pub open spec fn apply_task_spec(t: PipelineTask, fields: Seq<FieldView>) -> Seq<FieldView> {
    fields.filter(task_pred(t))
}

/// What the whole pipeline does: the tasks applied in registration order.
pub open spec fn apply_all_spec(tasks: Seq<PipelineTask>, fields: Seq<FieldView>) -> Seq<
    FieldView,
>
    decreases tasks.len(),
{
    if tasks.len() == 0 {
        fields
    } else {
        apply_all_spec(tasks.drop_first(), apply_task_spec(tasks[0], fields))
    }
}

/// The ordered task chain. Policy knobs are resolved when the chain is
/// built, not at each invocation.
#[derive(Debug)]
pub struct Pipeline {
    pub tasks: Vec<PipelineTask>,
}

impl Pipeline {
    /// A pipeline with no tasks: processing leaves both sides unchanged.
    pub fn empty() -> (p: Pipeline)
        ensures
            p.tasks@ == Seq::<PipelineTask>::empty(),
    {
        Pipeline { tasks: Vec::new() }
    }

    /// Appends one task; it will run after every task already registered.
    pub fn add_task(&mut self, t: PipelineTask)
        ensures
            final(self).tasks@ == old(self).tasks@.push(t),
    {
        self.tasks.push(t);
    }

    /// Applies every task, in registration order, to both sides of the pair
    /// in place.
    pub fn process(&self, before: &mut Snapshot, after: &mut Snapshot)
        ensures
            final(before)@ == apply_all_spec(self.tasks@, old(before)@),
            final(after)@ == apply_all_spec(self.tasks@, old(after)@),
    {
        let mut i: usize = 0;
        let ghost before0 = before@;
        let ghost after0 = after@;
        while i < self.tasks.len()
            invariant
                i <= self.tasks@.len(),
                before@ == apply_prefix(self.tasks@, i as int, before0),
                after@ == apply_prefix(self.tasks@, i as int, after0),
            decreases self.tasks@.len() - i,
        {
            apply_task(self.tasks[i], before);
            apply_task(self.tasks[i], after);
            proof {
                lemma_apply_prefix_step(self.tasks@, i as int, before0);
                lemma_apply_prefix_step(self.tasks@, i as int, after0);
            }
            i = i + 1;
        }
        proof {
            lemma_apply_prefix_full(self.tasks@, before0);
            lemma_apply_prefix_full(self.tasks@, after0);
        }
    }
}

/// The record after the first `n` tasks of the chain.
pub open spec fn apply_prefix(tasks: Seq<PipelineTask>, n: int, fields: Seq<FieldView>) -> Seq<
    FieldView,
>
    decreases n,
{
    if n <= 0 {
        fields
    } else {
        apply_task_spec(tasks[n - 1], apply_prefix(tasks, n - 1, fields))
    }
}

proof fn lemma_apply_prefix_step(tasks: Seq<PipelineTask>, i: int, fields: Seq<FieldView>)
    requires
        0 <= i < tasks.len(),
    ensures
        apply_task_spec(tasks[i], apply_prefix(tasks, i, fields)) == apply_prefix(
            tasks,
            i + 1,
            fields,
        ),
{
}

/// Running the chain front to back equals folding it as a prefix.
proof fn lemma_apply_prefix_full(tasks: Seq<PipelineTask>, fields: Seq<FieldView>)
    ensures
        apply_prefix(tasks, tasks.len() as int, fields) == apply_all_spec(tasks, fields),
    decreases tasks.len(),
{
    if tasks.len() > 0 {
        lemma_apply_prefix_full(tasks.drop_first(), apply_task_spec(tasks[0], fields));
        lemma_apply_prefix_shift(tasks, tasks.len() as int, fields);
    }
}

proof fn lemma_apply_prefix_shift(tasks: Seq<PipelineTask>, n: int, fields: Seq<FieldView>)
    requires
        0 < n <= tasks.len(),
    ensures
        apply_prefix(tasks, n, fields) == apply_prefix(
            tasks.drop_first(),
            n - 1,
            apply_task_spec(tasks[0], fields),
        ),
    decreases n,
{
    if n > 1 {
        lemma_apply_prefix_shift(tasks, n - 1, fields);
        assert(tasks.drop_first()[n - 2] == tasks[n - 1]);
    } else {
        assert(apply_prefix(tasks, 0, fields) == fields);
        assert(apply_prefix(tasks.drop_first(), 0, apply_task_spec(tasks[0], fields))
            == apply_task_spec(tasks[0], fields));
    }
}

/// Applies one task to one side in place.
fn apply_task(t: PipelineTask, snap: &mut Snapshot)
    ensures
        final(snap)@ == apply_task_spec(t, old(snap)@),
{
    match t {
        PipelineTask::ExcludeManagedFields => {
            remove_fields_named(snap, "managedFields");
        },
    }
}

/// Drops every field whose key equals `key`, keeping the rest in order.
fn remove_fields_named(snap: &mut Snapshot, key: &str)
    ensures
        final(snap)@ == old(snap)@.filter(keep_pred(key@)),
{
    let ghost pred = keep_pred(key@);
    let ghost orig = snap@;
    let needle = String::from_str(key);
    let mut kept: Vec<Field> = Vec::new();
    let mut i: usize = 0;
    while i < snap.fields.len()
        invariant
            i <= snap.fields@.len(),
            needle@ == key@,
            pred == keep_pred(key@),
            orig == snap@,
            orig.len() == snap.fields@.len(),
            fields_view(kept@) == orig.take(i as int).filter(pred),
        decreases snap.fields@.len() - i,
    {
        let ghost prev = fields_view(kept@);
        proof {
            reveal(Seq::filter);
            assert(orig.take(i + 1).drop_last() =~= orig.take(i as int));
            assert(orig.take(i + 1).last() == orig[i as int]);
            assert(orig[i as int] == snap.fields@[i as int]@);
            assert(pred(orig[i as int]) == (orig[i as int].key != key@));
        }
        let keep = !(snap.fields[i].key == needle);
        if keep {
            let f = &snap.fields[i];
            kept.push(Field { key: f.key.clone(), value: f.value.clone() });
            proof {
                assert(fields_view(kept@) =~= prev.push(orig[i as int]));
            }
        }
        i = i + 1;
    }
    proof {
        assert(orig.take(orig.len() as int) =~= orig);
    }
    snap.fields = kept;
}

/// Law: every single task is idempotent — a second application of the same
/// filter removes nothing more.
pub proof fn lemma_task_idempotent(t: PipelineTask, fields: Seq<FieldView>)
    ensures
        apply_task_spec(t, apply_task_spec(t, fields)) == apply_task_spec(t, fields),
{
    lemma_filter_idempotent(fields, task_pred(t));
}

proof fn lemma_filter_idempotent(s: Seq<FieldView>, p: spec_fn(FieldView) -> bool)
    ensures
        s.filter(p).filter(p) == s.filter(p),
    decreases s.len(),
{
    reveal(Seq::filter);
    if s.len() > 0 {
        lemma_filter_idempotent(s.drop_last(), p);
        if p(s.last()) {
            assert(s.filter(p) == s.drop_last().filter(p).push(s.last()));
            assert(s.filter(p).drop_last() =~= s.drop_last().filter(p));
        }
    }
}

proof fn lemma_filter_commutes(
    s: Seq<FieldView>,
    p: spec_fn(FieldView) -> bool,
    q: spec_fn(FieldView) -> bool,
)
    ensures
        s.filter(p).filter(q) == s.filter(q).filter(p),
    decreases s.len(),
{
    reveal(Seq::filter);
    if s.len() > 0 {
        lemma_filter_commutes(s.drop_last(), p, q);
        let d = s.drop_last();
        let x = s.last();
        if p(x) {
            assert(s.filter(p).drop_last() =~= d.filter(p));
        }
        if q(x) {
            assert(s.filter(q).drop_last() =~= d.filter(q));
        }
        if p(x) && q(x) {
            assert(s.filter(p).filter(q).drop_last() =~= d.filter(p).filter(q));
            assert(s.filter(q).filter(p).drop_last() =~= d.filter(q).filter(p));
        }
    }
}

/// One task commutes with a whole chain: filters may be reordered freely.
proof fn lemma_task_commutes_with_chain(
    t: PipelineTask,
    tasks: Seq<PipelineTask>,
    fields: Seq<FieldView>,
)
    ensures
        apply_task_spec(t, apply_all_spec(tasks, fields)) == apply_all_spec(
            tasks,
            apply_task_spec(t, fields),
        ),
    decreases tasks.len(),
{
    if tasks.len() > 0 {
        lemma_filter_commutes(fields, task_pred(tasks[0]), task_pred(t));
        lemma_task_commutes_with_chain(t, tasks.drop_first(), apply_task_spec(tasks[0], fields));
    }
}

/// Law: re-running the whole enabled task chain on its own output changes
/// nothing — processing the same pair twice yields the once-processed
/// record, byte for byte.
pub proof fn lemma_pipeline_idempotent(tasks: Seq<PipelineTask>, fields: Seq<FieldView>)
    ensures
        apply_all_spec(tasks, apply_all_spec(tasks, fields)) == apply_all_spec(tasks, fields),
    decreases tasks.len(),
{
    if tasks.len() > 0 {
        let t = tasks[0];
        let rest = tasks.drop_first();
        lemma_task_commutes_with_chain(t, rest, apply_task_spec(t, fields));
        lemma_task_idempotent(t, fields);
        lemma_pipeline_idempotent(rest, apply_task_spec(t, fields));
    }
}

/// Every field the chain leaves in the record stood in the record it was
/// given: tasks only remove, never invent.
pub proof fn lemma_apply_all_from_input(tasks: Seq<PipelineTask>, fields: Seq<FieldView>)
    ensures
        forall|j: int|
            0 <= j < apply_all_spec(tasks, fields).len() ==> fields.contains(
                #[trigger] apply_all_spec(tasks, fields)[j],
            ),
    decreases tasks.len(),
{
    if tasks.len() == 0 {
        assert forall|j: int|
            0 <= j < apply_all_spec(tasks, fields).len() implies fields.contains(
            #[trigger] apply_all_spec(tasks, fields)[j],
        ) by {
            assert(apply_all_spec(tasks, fields)[j] == fields[j]);
        }
    } else {
        let filtered = apply_task_spec(tasks[0], fields);
        lemma_apply_all_from_input(tasks.drop_first(), filtered);
        assert(apply_all_spec(tasks, fields) == apply_all_spec(tasks.drop_first(), filtered));
        assert forall|j: int|
            0 <= j < apply_all_spec(tasks, fields).len() implies fields.contains(
            #[trigger] apply_all_spec(tasks, fields)[j],
        ) by {
            let f = apply_all_spec(tasks, fields)[j];
            assert(filtered.contains(f));
            fields.lemma_filter_contains_rev(task_pred(tasks[0]), f);
        }
    }
}

/// Law (exactness of removal): after one task runs, the record holds, in
/// their original order, exactly those fields whose key the task does not
/// remove; no other field is touched.
pub proof fn lemma_task_removes_exactly(t: PipelineTask, fields: Seq<FieldView>)
    ensures
        forall|j: int|
            0 <= j < apply_task_spec(t, fields).len() ==> (#[trigger] apply_task_spec(
                t,
                fields,
            )[j]).key != task_key(t),
        forall|j: int|
            0 <= j < fields.len() && (#[trigger] fields[j]).key != task_key(t) ==> apply_task_spec(
                t,
                fields,
            ).contains(fields[j]),
{
    let filtered = fields.filter(task_pred(t));
    assert forall|j: int| 0 <= j < filtered.len() implies (#[trigger] filtered[j]).key != task_key(
        t,
    ) by {
        fields.lemma_filter_pred(task_pred(t), j);
    }
    assert forall|j: int|
        0 <= j < fields.len() && (#[trigger] fields[j]).key != task_key(t) implies filtered.contains(
        fields[j],
    ) by {
        fields.lemma_filter_contains(task_pred(t), j);
    }
}

} // verus!
