//! Object normalizer and text artifacts. A snapshot of a watched resource is
//! modelled as an ordered record of named fields; normalization turns it
//! into the canonical key-ordered interchange text through the YAML
//! serializer, so that byte-identical snapshots always yield byte-identical
//! artifacts.

use vstd::prelude::*;

use crate::errors::DiffError;

verus! {

/// One named field of a resource snapshot. Nested content stands in `value`
/// as already-serialized text; the orchestration reads only the keys.
#[derive(Debug)]
pub struct Field {
    pub key: String,
    pub value: String,
}

/// Mathematical image of a `Field`.
pub ghost struct FieldView {
    pub key: Seq<char>,
    pub value: Seq<char>,
}

impl View for Field {
    type V = FieldView;

    open spec fn view(&self) -> FieldView {
        FieldView { key: self.key@, value: self.value@ }
    }
}

/// One immutable snapshot of a watched resource: an ordered key-value
/// record, owned by the caller and borrowed by the normalizer.
#[derive(Debug)]
pub struct Snapshot {
    pub fields: Vec<Field>,
}

/// The views of a sequence of fields.
pub open spec fn fields_view(fields: Seq<Field>) -> Seq<FieldView> {
    fields.map_values(|f: Field| f@)
}

impl View for Snapshot {
    type V = Seq<FieldView>;

    open spec fn view(&self) -> Seq<FieldView> {
        fields_view(self.fields@)
    }
}

impl Snapshot {
    /// A snapshot with no fields: the empty document.
    pub fn empty() -> (s: Snapshot)
        ensures
            s@ == Seq::<FieldView>::empty(),
    {
        let s = Snapshot { fields: Vec::new() };
        proof {
            assert(s@ =~= Seq::<FieldView>::empty());
        }
        s
    }

    /// An owned copy with the same fields; snapshots are immutable once
    /// captured, so preprocessing works on copies.
    pub fn duplicate(&self) -> (c: Snapshot)
        ensures
            c@ == self@,
    {
        let mut fields: Vec<Field> = Vec::new();
        let mut i: usize = 0;
        while i < self.fields.len()
            invariant
                i <= self.fields@.len(),
                fields_view(fields@) == fields_view(self.fields@).take(i as int),
            decreases self.fields@.len() - i,
        {
            let ghost prev = fields_view(fields@);
            let f = &self.fields[i];
            fields.push(Field { key: f.key.clone(), value: f.value.clone() });
            proof {
                assert(fields_view(fields@) =~= prev.push(self.fields@[i as int]@));
                assert(fields_view(self.fields@).take(i + 1) =~= prev.push(
                    self.fields@[i as int]@,
                ));
            }
            i = i + 1;
        }
        let c = Snapshot { fields };
        proof {
            assert(fields_view(self.fields@).take(self.fields@.len() as int) =~= self@);
        }
        c
    }
}

/// The key-value pairs of a snapshot view, as plain sequences.
pub open spec fn field_pairs(fields: Seq<FieldView>) -> Seq<(Seq<char>, Seq<char>)> {
    fields.map_values(|f: FieldView| (f.key, f.value))
}

/// The canonical interchange text of a record of fields. Serialization is a
/// pure function of the fields, so byte-identical snapshots normalize to
/// byte-identical text.
pub uninterp spec fn yaml_of(fields: Seq<(Seq<char>, Seq<char>)>) -> Seq<char>;

/// Longest key or value text, in characters, that a field may carry. The
/// serializer's emitter holds each scalar's byte length in a signed 32-bit
/// count; a character takes at most four bytes, so this bound keeps every
/// scalar strictly below that count.
pub const MAX_FIELD_CHARS: usize = 0x2000_0000;

/// A field's key and value both stay within the serializable bound.
pub open spec fn field_within_limit(f: FieldView) -> bool {
    f.key.len() < MAX_FIELD_CHARS && f.value.len() < MAX_FIELD_CHARS
}

/// Every field of the record stays within the serializable bound.
pub open spec fn record_within_limit(fields: Seq<FieldView>) -> bool {
    forall|j: int| 0 <= j < fields.len() ==> field_within_limit(#[trigger] fields[j])
}

/// Decides at run time whether a snapshot stays within the serializable
/// bound, so that unverified callers can test the normalizer's precondition.
pub fn check_record_within_limit(snap: &Snapshot) -> (r: bool)
    ensures
        r == record_within_limit(snap@),
{
    let mut i: usize = 0;
    while i < snap.fields.len()
        invariant
            i <= snap.fields@.len(),
            forall|k: int| 0 <= k < i ==> field_within_limit(#[trigger] snap@[k]),
        decreases snap.fields@.len() - i,
    {
        let f = &snap.fields[i];
        let key_ok = f.key.as_str().unicode_len() < MAX_FIELD_CHARS;
        let value_ok = f.value.as_str().unicode_len() < MAX_FIELD_CHARS;
        if !(key_ok && value_ok) {
            proof {
                assert(!field_within_limit(snap@[i as int]));
            }
            return false;
        }
        i = i + 1;
    }
    true
}

/// Relies on serde_yaml::to_string over a serde_yaml::Mapping built from the
/// fields in order: the produced text depends on the fields alone, and the
/// call succeeds on every admitted mapping — it writes to an in-memory
/// buffer, so no I/O failure exists, and with every scalar's byte length
/// below the emitter's signed 32-bit count (the bound the `requires`
/// enforces) no failing path is reached.
#[verifier::external_body]
fn yaml_string_of_fields(fields: &Vec<Field>) -> (r: Result<String, serde_yaml::Error>)
    requires
        record_within_limit(fields_view(fields@)),
    ensures
        r is Ok,
        r->Ok_0@ == yaml_of(field_pairs(fields_view(fields@))),
{
    let mut mapping = serde_yaml::Mapping::new();
    for f in fields.iter() {
        mapping.insert(
            serde_yaml::Value::String(f.key.clone()),
            serde_yaml::Value::String(f.value.clone()),
        );
    }
    serde_yaml::to_string(&mapping)
}

/// The error type of the YAML serializer, carried through opaquely.
#[verifier::external_type_specification]
#[verifier::external_body]
pub struct ExYamlError(serde_yaml::Error);

/// Normalizes one snapshot into its canonical interchange text. The
/// serializer accepts every record whose fields stay within the
/// serializable bound, so success is owed; the error channel remains the
/// taxonomy's `Serialization` failure, which an admitted record never
/// triggers.
pub fn normalize(snap: &Snapshot) -> (r: Result<String, DiffError>)
    requires
        record_within_limit(snap@),
    ensures
        r is Ok,
        r->Ok_0@ == yaml_of(field_pairs(snap@)),
{
    match yaml_string_of_fields(&snap.fields) {
        Ok(text) => Ok(text),
        Err(_) => Err(DiffError::Serialization),
    }
}

/// Index of the first line break in `s`, or `s.len()` when there is none.
pub open spec fn first_newline(s: Seq<char>) -> nat
    decreases s.len(),
{
    if s.len() == 0 {
        0
    } else if s[0] == '\n' {
        0
    } else {
        1 + first_newline(s.drop_first())
    }
}

/// The lines of a text, split at each line break: the segments between
/// breaks, in order, each free of breaks; an empty text is one empty line.
pub open spec fn split_lines_spec(s: Seq<char>) -> Seq<Seq<char>>
    decreases s.len(),
{
    let i = first_newline(s);
    if i >= s.len() {
        seq![s]
    } else {
        seq![s.take(i as int)] + split_lines_spec(s.skip(i as int + 1))
    }
}

proof fn lemma_first_newline(s: Seq<char>)
    ensures
        first_newline(s) <= s.len(),
        forall|j: int| 0 <= j < first_newline(s) ==> s[j] != '\n',
        first_newline(s) < s.len() ==> s[first_newline(s) as int] == '\n',
    decreases s.len(),
{
    if s.len() > 0 && s[0] != '\n' {
        lemma_first_newline(s.drop_first());
        assert forall|j: int| 0 <= j < first_newline(s) implies s[j] != '\n' by {
            if j > 0 {
                assert(s.drop_first()[j - 1] == s[j]);
            }
        }
    }
}

/// The lines joined back together, one break between consecutive lines.
pub open spec fn joined_lines(lines: Seq<Seq<char>>) -> Seq<char>
    decreases lines.len(),
{
    if lines.len() == 0 {
        Seq::<char>::empty()
    } else if lines.len() == 1 {
        lines[0]
    } else {
        lines[0] + seq!['\n'] + joined_lines(lines.drop_first())
    }
}

/// Law (artifact coherence): splitting a text into its lines loses nothing
/// and invents nothing — the lines, joined with one break between each
/// pair, restore the text exactly, and no line contains a break.
pub proof fn lemma_split_join(s: Seq<char>)
    ensures
        split_lines_spec(s).len() >= 1,
        joined_lines(split_lines_spec(s)) == s,
        forall|i: int|
            0 <= i < split_lines_spec(s).len() ==> !(#[trigger] split_lines_spec(
                s,
            )[i]).contains('\n'),
    decreases s.len(),
{
    lemma_first_newline(s);
    let n = first_newline(s);
    if n >= s.len() {
        assert(split_lines_spec(s) == seq![s]);
        assert forall|i: int| 0 <= i < split_lines_spec(s).len() implies !(
        #[trigger] split_lines_spec(s)[i]).contains('\n') by {
            assert(forall|j: int| 0 <= j < s.len() ==> s[j] != '\n');
        }
    } else {
        let head = s.take(n as int);
        let tail = s.skip(n as int + 1);
        lemma_split_join(tail);
        let rest = split_lines_spec(tail);
        assert(split_lines_spec(s) == seq![head] + rest);
        assert((seq![head] + rest).drop_first() =~= rest);
        assert((seq![head] + rest)[0] == head);
        assert(joined_lines(split_lines_spec(s)) == head + seq!['\n'] + joined_lines(rest));
        assert(head + seq!['\n'] + tail =~= s);
        assert forall|i: int| 0 <= i < split_lines_spec(s).len() implies !(
        #[trigger] split_lines_spec(s)[i]).contains('\n') by {
            if i == 0 {
                assert(forall|j: int| 0 <= j < head.len() ==> head[j] == s[j] && s[j] != '\n');
            } else {
                assert(split_lines_spec(s)[i] == rest[i - 1]);
            }
        }
    }
}

/// Relies on str::split at '\n': the segments between line breaks, in order.
#[verifier::external_body]
fn split_at_newlines(s: &str) -> (r: Vec<String>)
    ensures
        r@.map_values(|l: String| l@) == split_lines_spec(s@),
{
    s.split('\n').map(|part| part.to_string()).collect()
}

/// Materializes one normalized text as a direct (in-memory) artifact: its
/// sequence of lines, the form the backend adapter consumes.
pub fn artifact_lines(text: &String) -> (r: Vec<String>)
    ensures
        r@.map_values(|l: String| l@) == split_lines_spec(text@),
{
    split_at_newlines(text.as_str())
}

} // verus!
