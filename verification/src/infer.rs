//! Schema inference: sample a bounded number of records across a list of
//! source objects, infer a per-object schema, and merge the results.
//!
//! The byte-to-value parsing of one record line is delegated to serde_json
//! behind a trusted wrapper; splitting an object's bytes into record lines,
//! the global record budget, type widening and schema merging are verified.

use vstd::prelude::*;
use crate::errors::FormatError;
use crate::schema::{
    Field, FieldType, Schema, fields_map, find_field, lemma_fields_map_at, lemma_fields_map_dom,
    lemma_fields_map_update, lemma_merge_step_swap, merge_step, merge_types,
    schema_maps_compatible, spec_merge_maps, spec_merge_types,
};

verus! {

/// One observed field of one record: its name and the type of its value.
#[derive(Clone, Debug)]
pub struct RecordField {
    pub name: String,
    pub kind: FieldType,
}

/// The model of one record: its fields' names and value types, in order.
pub type RecordModel = Seq<(Seq<char>, FieldType)>;

/// The model of a schema: field name to (type, nullability).
pub type SchemaMap = Map<Seq<char>, (FieldType, bool)>;

/// The model of one parsed record.
pub open spec fn record_view(r: Vec<RecordField>) -> RecordModel {
    r@.map(|i: int, f: RecordField| (f.name@, f.kind))
}

/// The model of one object's parsed records.
pub open spec fn object_view(o: Seq<Vec<RecordField>>) -> Seq<RecordModel> {
    o.map(|i: int, r: Vec<RecordField>| record_view(r))
}

// ---------------------------------------------------------------------------
// Record lines
// ---------------------------------------------------------------------------

/// Horizontal whitespace and carriage return: bytes that may pad a record
/// line without carrying content.
pub open spec fn is_ws(b: u8) -> bool {
    b == 32 || b == 9 || b == 13
}

/// A line with no content.
pub open spec fn is_blank(line: Seq<u8>) -> bool {
    forall|i: int| 0 <= i < line.len() ==> is_ws(#[trigger] line[i])
}

/// The non-blank newline-separated lines of `data`, given the partial line
/// `cur` read so far.
pub open spec fn split_acc(data: Seq<u8>, cur: Seq<u8>) -> Seq<Seq<u8>>
    decreases data.len(),
{
    if data.len() == 0 {
        if is_blank(cur) {
            Seq::empty()
        } else {
            seq![cur]
        }
    } else if data[0] == 10 {
        if is_blank(cur) {
            split_acc(data.skip(1), Seq::empty())
        } else {
            seq![cur] + split_acc(data.skip(1), Seq::empty())
        }
    } else {
        split_acc(data.skip(1), cur.push(data[0]))
    }
}

/// The non-blank newline-separated lines of `data`: the record lines.
pub open spec fn spec_split_lines(data: Seq<u8>) -> Seq<Seq<u8>> {
    split_acc(data, Seq::empty())
}

/// The byte sequences of a vector of lines.
pub open spec fn lines_views(ls: Seq<Vec<u8>>) -> Seq<Seq<u8>> {
    ls.map(|i: int, l: Vec<u8>| l@)
}

/// Whether every byte of a line is whitespace.
fn is_blank_exec(line: &Vec<u8>) -> (r: bool)
    ensures
        r == is_blank(line@),
{
    let mut i: usize = 0;
    while i < line.len()
        invariant
            i <= line@.len(),
            forall|j: int| 0 <= j < i ==> is_ws(#[trigger] line@[j]),
        decreases line@.len() - i,
    {
        let b = line[i];
        if !(b == 32 || b == 9 || b == 13) {
            return false;
        }
        i = i + 1;
    }
    true
}

/// Splits an object's bytes into its record lines: newline-separated, blank
/// lines skipped.
pub fn split_lines(data: &[u8]) -> (r: Vec<Vec<u8>>)
    ensures
        lines_views(r@) == spec_split_lines(data@),
{
    let mut out: Vec<Vec<u8>> = Vec::new();
    let mut cur: Vec<u8> = Vec::new();
    let mut i: usize = 0;
    proof {
        assert(data@.skip(0) =~= data@);
        assert(lines_views(out@) + split_acc(data@, cur@) =~= split_acc(data@, cur@));
    }
    while i < data.len()
        invariant
            i <= data@.len(),
            lines_views(out@) + split_acc(data@.skip(i as int), cur@) == spec_split_lines(data@),
        decreases data@.len() - i,
    {
        let b = data[i];
        proof {
            assert(data@.skip(i as int)[0] == data@[i as int]);
            assert(data@.skip(i as int).skip(1) =~= data@.skip(i as int + 1));
        }
        if b == 10 {
            let ghost pre = out@;
            if !is_blank_exec(&cur) {
                out.push(cur);
                cur = Vec::new();
                proof {
                    assert(lines_views(out@) =~= lines_views(pre).push(out@.last()@));
                    assert(lines_views(out@) + split_acc(data@.skip(i as int + 1), cur@)
                        =~= spec_split_lines(data@));
                }
            } else {
                cur = Vec::new();
            }
        } else {
            cur.push(b);
        }
        i = i + 1;
    }
    proof {
        assert(data@.skip(i as int) =~= Seq::<u8>::empty());
    }
    if !is_blank_exec(&cur) {
        let ghost pre = out@;
        out.push(cur);
        proof {
            assert(lines_views(out@) =~= lines_views(pre).push(out@.last()@));
            assert(lines_views(out@) =~= spec_split_lines(data@));
        }
    }
    out
}

// ---------------------------------------------------------------------------
// Parsing one record line (trusted)
// ---------------------------------------------------------------------------

/// The record a line of bytes parses to: the (name, value type) pairs of the
/// one JSON object on the line, or `None` where the line is not one flat JSON
/// object of scalar values.
pub uninterp spec fn record_of(line: Seq<u8>) -> Option<RecordModel>;

/// Relies on serde_json::from_slice: parses the one JSON value on a record
/// line. The value must be an object; each of its fields is reported with the
/// type of its value (`null`, boolean, integer or non-integer number, string);
/// a nested array or object value is not a flat record and is malformed here.
#[verifier::external_body]
fn parse_record(line: &Vec<u8>) -> (r: Result<Vec<RecordField>, FormatError>)
    ensures
        r matches Ok(rec) ==> record_of(line@) == Some(record_view(rec)),
        r is Err <==> record_of(line@) is None,
        r matches Err(e) ==> e == FormatError::DecodeError,
{
    let v = serde_json::from_slice::<serde_json::Value>(line).map_err(|_| FormatError::DecodeError)?;
    let serde_json::Value::Object(fields) = v else { return Err(FormatError::DecodeError) };
    let mut rec: Vec<RecordField> = Vec::new();
    for (name, val) in fields {
        let kind = match val {
            serde_json::Value::Null => FieldType::Null,
            serde_json::Value::Bool(_) => FieldType::Boolean,
            serde_json::Value::Number(n) => if n.is_i64() || n.is_u64() { FieldType::Int64 } else { FieldType::Float64 },
            serde_json::Value::String(_) => FieldType::Utf8,
            _ => return Err(FormatError::DecodeError),
        };
        rec.push(RecordField { name, kind });
    }
    Ok(rec)
}

/// The records of a sequence of lines, left to right; the first malformed
/// line makes the whole object malformed.
pub open spec fn spec_records_of_lines(lines: Seq<Seq<u8>>) -> Result<Seq<RecordModel>, FormatError>
    decreases lines.len(),
{
    if lines.len() == 0 {
        Ok(Seq::empty())
    } else {
        match spec_records_of_lines(lines.drop_last()) {
            Err(e) => Err(e),
            Ok(rs) => match record_of(lines.last()) {
                None => Err(FormatError::DecodeError),
                Some(r) => Ok(rs.push(r)),
            },
        }
    }
}

/// Once a prefix of the lines fails to parse, the whole sequence fails the
/// same way.
pub proof fn lemma_records_prefix_err(lines: Seq<Seq<u8>>, j: int)
    requires
        0 <= j <= lines.len(),
        spec_records_of_lines(lines.take(j)) is Err,
    ensures
        spec_records_of_lines(lines) == spec_records_of_lines(lines.take(j)),
    decreases lines.len() - j,
{
    if j == lines.len() {
        assert(lines.take(j) =~= lines);
    } else {
        assert(lines.take(j + 1).drop_last() =~= lines.take(j));
        lemma_records_prefix_err(lines, j + 1);
    }
}

// ---------------------------------------------------------------------------
// Inferring one object's schema from its sampled records
// ---------------------------------------------------------------------------

/// Observing one field of one record: a new name enters the schema with its
/// observed type, a known name has its type widened; every inferred field is
/// nullable, since other records may omit it.
pub open spec fn spec_observe(m: SchemaMap, name: Seq<char>, k: FieldType) -> Result<
    SchemaMap,
    FormatError,
> {
    if m.dom().contains(name) {
        match spec_merge_types(m[name].0, k) {
            Some(t) => Ok(m.insert(name, (t, true))),
            None => Err(FormatError::SchemaConflict),
        }
    } else {
        Ok(m.insert(name, (k, true)))
    }
}

/// Observing the fields of one record, left to right.
pub open spec fn spec_observe_fields(m: SchemaMap, fs: RecordModel) -> Result<
    SchemaMap,
    FormatError,
>
    decreases fs.len(),
{
    if fs.len() == 0 {
        Ok(m)
    } else {
        match spec_observe_fields(m, fs.drop_last()) {
            Err(e) => Err(e),
            Ok(m2) => spec_observe(m2, fs.last().0, fs.last().1),
        }
    }
}

/// Observing a sequence of records, left to right.
pub open spec fn spec_observe_records(m: SchemaMap, recs: Seq<RecordModel>) -> Result<
    SchemaMap,
    FormatError,
>
    decreases recs.len(),
{
    if recs.len() == 0 {
        Ok(m)
    } else {
        match spec_observe_records(m, recs.drop_last()) {
            Err(e) => Err(e),
            Ok(m2) => spec_observe_fields(m2, recs.last()),
        }
    }
}

/// The schema one object's sampled records infer to.
pub open spec fn spec_infer_object(recs: Seq<RecordModel>) -> Result<SchemaMap, FormatError> {
    spec_observe_records(Map::empty(), recs)
}

/// Once a prefix of the fields conflicts, the whole record conflicts the same
/// way.
pub proof fn lemma_observe_fields_prefix_err(m: SchemaMap, fs: RecordModel, j: int)
    requires
        0 <= j <= fs.len(),
        spec_observe_fields(m, fs.take(j)) is Err,
    ensures
        spec_observe_fields(m, fs) == spec_observe_fields(m, fs.take(j)),
    decreases fs.len() - j,
{
    if j == fs.len() {
        assert(fs.take(j) =~= fs);
    } else {
        assert(fs.take(j + 1).drop_last() =~= fs.take(j));
        lemma_observe_fields_prefix_err(m, fs, j + 1);
    }
}

/// Once a prefix of the records conflicts, the whole object conflicts the
/// same way.
pub proof fn lemma_observe_records_prefix_err(m: SchemaMap, recs: Seq<RecordModel>, j: int)
    requires
        0 <= j <= recs.len(),
        spec_observe_records(m, recs.take(j)) is Err,
    ensures
        spec_observe_records(m, recs) == spec_observe_records(m, recs.take(j)),
    decreases recs.len() - j,
{
    if j == recs.len() {
        assert(recs.take(j) =~= recs);
    } else {
        assert(recs.take(j + 1).drop_last() =~= recs.take(j));
        lemma_observe_records_prefix_err(m, recs, j + 1);
    }
}

/// Infers the schema of one object from its sampled records: field names are
/// unioned over all records, each field's type is the widening of its
/// observed value types, and every field is nullable.
pub fn infer_object_schema(records: &Vec<Vec<RecordField>>) -> (r: Result<Schema, FormatError>)
    ensures
        r matches Ok(s) ==> s.wf() && spec_infer_object(object_view(records@)) == Ok::<
            SchemaMap,
            FormatError,
        >(s.spec_map()),
        r matches Err(e) ==> spec_infer_object(object_view(records@)) == Err::<SchemaMap, _>(e),
        r is Ok <==> spec_infer_object(object_view(records@)) is Ok,
{
    let mut fields: Vec<Field> = Vec::new();
    let mut ri: usize = 0;
    while ri < records.len()
        invariant
            ri <= records@.len(),
            forall|p: int, q: int|
                0 <= p < q < fields@.len() ==> fields@[p].name@ != fields@[q].name@,
            spec_observe_records(Map::empty(), object_view(records@).take(ri as int)) == Ok::<
                SchemaMap,
                FormatError,
            >(fields_map(fields@)),
        decreases records@.len() - ri,
    {
        let ghost m0 = fields_map(fields@);
        let ghost rv = record_view(records@[ri as int]);
        let rec = &records[ri];
        let mut fi: usize = 0;
        while fi < rec.len()
            invariant
                fi <= rec@.len(),
                rv == record_view(records@[ri as int]),
                ri < records@.len(),
                rec == &records[ri as int],
                forall|p: int, q: int|
                    0 <= p < q < fields@.len() ==> fields@[p].name@ != fields@[q].name@,
                spec_observe_fields(m0, rv.take(fi as int)) == Ok::<SchemaMap, FormatError>(
                    fields_map(fields@),
                ),
                spec_observe_records(Map::empty(), object_view(records@).take(ri as int)) == Ok::<
                    SchemaMap,
                    FormatError,
                >(m0),
            decreases rec@.len() - fi,
        {
            let f = &rec[fi];
            proof {
                assert(rv.take(fi as int + 1).drop_last() =~= rv.take(fi as int));
                assert(rv.take(fi as int + 1).last() == (f.name@, f.kind));
            }
            match find_field(&fields, &f.name) {
                Some(idx) => {
                    let cur = &fields[idx];
                    proof {
                        lemma_fields_map_dom(fields@, f.name@);
                        lemma_fields_map_at(fields@, idx as int);
                    }
                    match merge_types(cur.data_type, f.kind) {
                        Ok(t) => {
                            let merged = Field {
                                name: cur.name.clone(),
                                data_type: t,
                                nullable: true,
                            };
                            proof {
                                lemma_fields_map_update(fields@, idx as int, merged);
                            }
                            fields.set(idx, merged);
                        },
                        Err(e) => {
                            proof {
                                assert(spec_observe_fields(m0, rv.take(fi as int + 1)) == Err::<
                                    SchemaMap,
                                    FormatError,
                                >(e));
                                lemma_observe_fields_prefix_err(m0, rv, fi as int + 1);
                                assert(object_view(records@).take(ri as int + 1).drop_last()
                                    =~= object_view(records@).take(ri as int));
                                assert(object_view(records@).take(ri as int + 1).last() == rv);
                                lemma_observe_records_prefix_err(
                                    Map::empty(),
                                    object_view(records@),
                                    ri as int + 1,
                                );
                                assert(object_view(records@).take(records@.len() as int)
                                    =~= object_view(records@));
                            }
                            return Err(e);
                        },
                    }
                },
                None => {
                    proof {
                        lemma_fields_map_dom(fields@, f.name@);
                    }
                    let ghost pre = fields@;
                    fields.push(Field { name: f.name.clone(), data_type: f.kind, nullable: true });
                    proof {
                        assert(fields@.drop_last() =~= pre);
                    }
                },
            }
            fi = fi + 1;
        }
        proof {
            assert(rv.take(rec@.len() as int) =~= rv);
            assert(object_view(records@).take(ri as int + 1).drop_last() =~= object_view(
                records@,
            ).take(ri as int));
            assert(object_view(records@).take(ri as int + 1).last() == rv);
        }
        ri = ri + 1;
    }
    proof {
        assert(object_view(records@).take(records@.len() as int) =~= object_view(records@));
    }
    Ok(Schema { fields })
}

// ---------------------------------------------------------------------------
// The global record budget
// ---------------------------------------------------------------------------

/// How many records the budget samples from each object, in order. Each
/// object yields up to its own record count; the budget is shared across the
/// objects, and once it reaches zero sampling stops for good: the object that
/// consumes the rest of the budget is the last one sampled.
pub open spec fn spec_take_counts(lens: Seq<int>, budget: int) -> Seq<int>
    decreases lens.len(),
{
    if lens.len() == 0 {
        Seq::empty()
    } else {
        let t = if lens[0] < budget {
            lens[0]
        } else {
            budget
        };
        if budget - t == 0 {
            seq![t]
        } else {
            seq![t] + spec_take_counts(lens.skip(1), budget - t)
        }
    }
}

/// Sum of a sequence of counts.
pub open spec fn sum_seq(s: Seq<int>) -> int
    decreases s.len(),
{
    if s.len() == 0 {
        0
    } else {
        s[0] + sum_seq(s.skip(1))
    }
}

/// The record budget is global, not per object: sampling takes at most
/// `budget` records in total, never more than an object holds, and it leaves
/// a later object unsampled only because the budget was already spent.
pub proof fn lemma_budget_global(lens: Seq<int>, budget: int)
    requires
        budget >= 0,
        forall|i: int| 0 <= i < lens.len() ==> #[trigger] lens[i] >= 0,
    ensures
        spec_take_counts(lens, budget).len() <= lens.len(),
        forall|i: int|
            0 <= i < spec_take_counts(lens, budget).len() ==> 0 <= #[trigger] spec_take_counts(
                lens,
                budget,
            )[i] <= lens[i],
        sum_seq(spec_take_counts(lens, budget)) <= budget,
        spec_take_counts(lens, budget).len() < lens.len() ==> sum_seq(
            spec_take_counts(lens, budget),
        ) == budget,
    decreases lens.len(),
{
    let cs = spec_take_counts(lens, budget);
    if lens.len() > 0 {
        let t = if lens[0] < budget {
            lens[0]
        } else {
            budget
        };
        if budget - t == 0 {
            assert(cs =~= seq![t]);
            assert(cs.skip(1) =~= Seq::<int>::empty());
            assert(cs[0] == t);
            assert(sum_seq(cs) == t + sum_seq(cs.skip(1)));
            assert(sum_seq(cs) == t);
        } else {
            let rest = spec_take_counts(lens.skip(1), budget - t);
            lemma_budget_global(lens.skip(1), budget - t);
            assert(cs =~= seq![t] + rest);
            assert(cs.skip(1) =~= rest);
            assert(cs[0] == t);
            assert(sum_seq(cs) == t + sum_seq(rest));
            assert(forall|i: int|
                0 <= i < rest.len() ==> 0 <= #[trigger] rest[i] <= lens.skip(1)[i]);
            assert forall|i: int| 0 <= i < cs.len() implies 0 <= #[trigger] cs[i] <= lens[i] by {
                if i > 0 {
                    assert(cs[i] == rest[i - 1]);
                    assert(lens.skip(1)[i - 1] == lens[i]);
                }
            }
        }
    }
}

// ---------------------------------------------------------------------------
// Inference over a list of objects
// ---------------------------------------------------------------------------

/// The record-line count of each object.
pub open spec fn object_lens(objs: Seq<Vec<u8>>) -> Seq<int> {
    objs.map(|i: int, o: Vec<u8>| spec_split_lines(o@).len() as int)
}

/// The records sampled from one object: its first `count` record lines,
/// parsed.
pub open spec fn object_records(data: Seq<u8>, count: int) -> Result<Seq<RecordModel>, FormatError> {
    spec_records_of_lines(spec_split_lines(data).take(count))
}

/// Inference over the sampled objects: each object's sampled records infer a
/// per-object schema, and the per-object schemas are merged left to right.
pub open spec fn spec_merge_objects(objs: Seq<Vec<u8>>, counts: Seq<int>) -> Result<
    SchemaMap,
    FormatError,
>
    decreases counts.len(),
{
    if counts.len() == 0 {
        Ok(Map::empty())
    } else {
        match spec_merge_objects(objs, counts.drop_last()) {
            Err(e) => Err(e),
            Ok(acc) => {
                let i = counts.len() - 1;
                match object_records(objs[i]@, counts[i]) {
                    Err(e) => Err(e),
                    Ok(recs) => match spec_infer_object(recs) {
                        Err(e) => Err(e),
                        Ok(m) => if schema_maps_compatible(acc, m) {
                            Ok(spec_merge_maps(acc, m))
                        } else {
                            Err(FormatError::SchemaConflict)
                        },
                    },
                }
            },
        }
    }
}

/// What schema inference over a list of objects' bytes yields under a record
/// budget.
pub open spec fn spec_infer(objs: Seq<Vec<u8>>, max_records: int) -> Result<SchemaMap, FormatError> {
    spec_merge_objects(objs, spec_take_counts(object_lens(objs), max_records))
}

/// Once the merge fails over a prefix of the sampled objects, it fails the
/// same way over all of them.
pub proof fn lemma_merge_objects_prefix_err(objs: Seq<Vec<u8>>, counts: Seq<int>, j: int)
    requires
        0 <= j <= counts.len(),
        spec_merge_objects(objs, counts.take(j)) is Err,
    ensures
        spec_merge_objects(objs, counts) == spec_merge_objects(objs, counts.take(j)),
    decreases counts.len() - j,
{
    if j == counts.len() {
        assert(counts.take(j) =~= counts);
    } else {
        assert(counts.take(j + 1).drop_last() =~= counts.take(j));
        lemma_merge_objects_prefix_err(objs, counts, j + 1);
    }
}

/// Infers the table schema of a list of source objects, sampling at most
/// `max_records` records in total: the budget is shared across the objects,
/// and once it is exhausted no further object is sampled. Zero objects or a
/// zero budget yield the empty schema.
#[verifier::loop_isolation(false)]
pub fn infer_schema_from_objects(objects: &Vec<Vec<u8>>, max_records: usize) -> (r: Result<
    Schema,
    FormatError,
>)
    ensures
        r matches Ok(s) ==> s.wf() && spec_infer(objects@, max_records as int) == Ok::<
            SchemaMap,
            FormatError,
        >(s.spec_map()),
        r matches Err(e) ==> spec_infer(objects@, max_records as int) == Err::<SchemaMap, _>(e),
        r is Ok <==> spec_infer(objects@, max_records as int) is Ok,
{
    let ghost lens = object_lens(objects@);
    let ghost full = spec_take_counts(lens, max_records as int);
    let mut acc = Schema::empty();
    let mut budget: usize = max_records;
    let mut stopped: bool = false;
    let mut i: usize = 0;
    let ghost mut counts: Seq<int> = Seq::empty();
    proof {
        assert(lens.skip(0) =~= lens);
        assert(counts + spec_take_counts(lens, max_records as int) =~= full);
    }
    while i < objects.len() && !stopped
        invariant
            i <= objects@.len(),
            lens == object_lens(objects@),
            full == spec_take_counts(lens, max_records as int),
            counts.len() == i,
            acc.wf(),
            !stopped ==> full == counts + spec_take_counts(lens.skip(i as int), budget as int),
            stopped ==> full == counts,
            spec_merge_objects(objects@, counts) == Ok::<SchemaMap, FormatError>(acc.spec_map()),
        decreases objects@.len() - i,
    {
        let obj = &objects[i];
        let lines = split_lines(obj.as_slice());
        let t: usize = if lines.len() < budget {
            lines.len()
        } else {
            budget
        };
        let ghost all_lines = spec_split_lines(obj@);
        let ghost b0 = budget as int;
        proof {
            assert(lens[i as int] == all_lines.len() as int);
            assert(lines_views(lines@).len() == all_lines.len());
            assert(lens.skip(i as int)[0] == lens[i as int]);
            assert(lens.skip(i as int).skip(1) =~= lens.skip(i as int + 1));
            assert(full.take(i as int) =~= counts);
            assert(full.take(i as int + 1) =~= counts.push(t as int));
        }
        let ghost cpush = counts.push(t as int);
        proof {
            assert(cpush.drop_last() =~= counts);
            assert(cpush.last() == t as int);
            assert(cpush.len() == i as int + 1);
            assert(obj@ == objects@[i as int]@);
        }
        let mut records: Vec<Vec<RecordField>> = Vec::new();
        let mut j: usize = 0;
        proof {
            assert(lines_views(lines@).take(0) =~= Seq::<Seq<u8>>::empty());
            assert(object_view(records@) =~= Seq::<RecordModel>::empty());
        }
        while j < t
            invariant
                j <= t,
                t <= lines@.len(),
                i < objects@.len(),
                obj == &objects@[i as int],
                all_lines == spec_split_lines(obj@),
                lines_views(lines@) == all_lines,
                spec_records_of_lines(lines_views(lines@).take(j as int)) == Ok::<
                    Seq<RecordModel>,
                    FormatError,
                >(object_view(records@)),
            decreases t - j,
        {
            proof {
                assert(lines_views(lines@).take(j as int + 1).drop_last() =~= lines_views(
                    lines@,
                ).take(j as int));
                assert(lines_views(lines@).take(j as int + 1).last() == lines@[j as int]@);
            }
            match parse_record(&lines[j]) {
                Ok(rec) => {
                    let ghost preview = object_view(records@);
                    records.push(rec);
                    proof {
                        assert(records@.drop_last() =~= records@.take(records@.len() - 1));
                        assert(object_view(records@) =~= preview.push(
                            record_view(records@.last()),
                        ));
                    }
                },
                Err(e) => {
                    proof {
                        assert(all_lines.take(t as int).take(j as int + 1) =~= lines_views(
                            lines@,
                        ).take(j as int + 1));
                        lemma_records_prefix_err(all_lines.take(t as int), j as int + 1);
                        assert(object_records(obj@, t as int) == Err::<Seq<RecordModel>, _>(e));
                        assert(counts.push(t as int).drop_last() =~= counts);
                        assert(spec_merge_objects(objects@, counts.push(t as int)) == Err::<
                            SchemaMap,
                            _,
                        >(e));
                        lemma_merge_objects_prefix_err(objects@, full, i as int + 1);
                    }
                    return Err(e);
                },
            }
            j = j + 1;
        }
        proof {
            assert(lines_views(lines@).take(t as int) =~= all_lines.take(t as int));
            assert(object_records(obj@, t as int) == Ok::<Seq<RecordModel>, FormatError>(
                object_view(records@),
            ));
            assert(counts.push(t as int).drop_last() =~= counts);
        }
        let obj_schema = match infer_object_schema(&records) {
            Ok(s) => s,
            Err(e) => {
                proof {
                    assert(spec_merge_objects(objects@, counts.push(t as int)) == Err::<
                        SchemaMap,
                        _,
                    >(e));
                    lemma_merge_objects_prefix_err(objects@, full, i as int + 1);
                }
                return Err(e);
            },
        };
        match acc.merge(&obj_schema) {
            Ok(m) => {
                proof {
                    assert(spec_merge_objects(objects@, counts.push(t as int)) == Ok::<
                        SchemaMap,
                        FormatError,
                    >(m.spec_map()));
                }
                acc = m;
            },
            Err(e) => {
                proof {
                    assert(spec_merge_objects(objects@, counts.push(t as int)) == Err::<
                        SchemaMap,
                        _,
                    >(e));
                    lemma_merge_objects_prefix_err(objects@, full, i as int + 1);
                }
                return Err(e);
            },
        }
        proof {
            counts = counts.push(t as int);
        }
        budget = budget - t;
        if budget == 0 {
            stopped = true;
        }
        i = i + 1;
        proof {
            if !stopped {
                assert(counts + spec_take_counts(lens.skip(i as int), budget as int) =~= counts.drop_last()
                    + (seq![t as int] + spec_take_counts(lens.skip(i as int), budget as int)));
                assert(counts.drop_last() =~= counts.take(counts.len() - 1));
                assert(full == counts + spec_take_counts(lens.skip(i as int), budget as int));
            }
        }
    }
    proof {
        if !stopped {
            assert(lens.skip(i as int) =~= Seq::<int>::empty());
            assert(full == counts + spec_take_counts(Seq::empty(), budget as int));
            assert(full =~= counts);
        }
    }
    Ok(acc)
}


// ---------------------------------------------------------------------------
// Order-insensitivity of inference under a covering budget
// ---------------------------------------------------------------------------

/// All records of one object: its record lines, fully parsed.
pub open spec fn object_all_records(o: Vec<u8>) -> Result<Seq<RecordModel>, FormatError> {
    object_records(o@, spec_split_lines(o@).len() as int)
}

/// The schema one object infers to, with any failure folded to `None`.
pub open spec fn object_opt_map(o: Vec<u8>) -> Option<SchemaMap> {
    match object_all_records(o) {
        Err(_) => None,
        Ok(recs) => match spec_infer_object(recs) {
            Err(_) => None,
            Ok(m) => Some(m),
        },
    }
}

/// One step of inference over whole objects, a conflict propagating as
/// `None`.
pub open spec fn infer_step(acc: Option<SchemaMap>, o: Vec<u8>) -> Option<SchemaMap> {
    match object_opt_map(o) {
        Some(m) => merge_step(acc, m),
        None => None,
    }
}

/// The whole-object inference step as a fold operator.
pub open spec fn infer_fold_fn() -> spec_fn(Option<SchemaMap>, Vec<u8>) -> Option<SchemaMap> {
    |acc: Option<SchemaMap>, o: Vec<u8>| infer_step(acc, o)
}

/// Whether every object's record lines parse.
pub open spec fn all_objects_parse(objs: Seq<Vec<u8>>) -> bool {
    forall|i: int| 0 <= i < objs.len() ==> object_all_records(#[trigger] objs[i]) is Ok
}

/// Total record lines across the objects.
pub open spec fn total_records(objs: Seq<Vec<u8>>) -> int {
    sum_seq(object_lens(objs))
}

/// A sum of nonnegative counts is nonnegative.
proof fn lemma_sum_seq_nonneg(lens: Seq<int>)
    requires
        forall|i: int| 0 <= i < lens.len() ==> #[trigger] lens[i] >= 0,
    ensures
        sum_seq(lens) >= 0,
    decreases lens.len(),
{
    if lens.len() > 0 {
        assert(forall|i: int|
            0 <= i < lens.skip(1).len() ==> #[trigger] lens.skip(1)[i] >= 0);
        lemma_sum_seq_nonneg(lens.skip(1));
    }
}

/// A budget above the total samples every record of every object.
pub proof fn lemma_take_counts_covering(lens: Seq<int>, budget: int)
    requires
        forall|i: int| 0 <= i < lens.len() ==> #[trigger] lens[i] >= 0,
        budget > sum_seq(lens),
    ensures
        spec_take_counts(lens, budget) == lens,
    decreases lens.len(),
{
    if lens.len() == 0 {
        assert(spec_take_counts(lens, budget) =~= lens);
    } else {
        assert(sum_seq(lens) == lens[0] + sum_seq(lens.skip(1)));
        assert(forall|i: int|
            0 <= i < lens.skip(1).len() ==> #[trigger] lens.skip(1)[i] >= 0);
        lemma_sum_seq_nonneg(lens.skip(1));
        lemma_take_counts_covering(lens.skip(1), budget - lens[0]);
        assert(spec_take_counts(lens, budget) =~= lens);
    }
}

/// The only failure observing a record's fields raises is a schema conflict.
proof fn lemma_observe_fields_err_conflict(m: SchemaMap, fs: RecordModel)
    ensures
        spec_observe_fields(m, fs) is Err ==> spec_observe_fields(m, fs) == Err::<
            SchemaMap,
            FormatError,
        >(FormatError::SchemaConflict),
    decreases fs.len(),
{
    if fs.len() > 0 {
        lemma_observe_fields_err_conflict(m, fs.drop_last());
    }
}

/// The only failure inferring one object's schema raises is a schema
/// conflict.
proof fn lemma_observe_records_err_conflict(m: SchemaMap, recs: Seq<RecordModel>)
    ensures
        spec_observe_records(m, recs) is Err ==> spec_observe_records(m, recs) == Err::<
            SchemaMap,
            FormatError,
        >(FormatError::SchemaConflict),
    decreases recs.len(),
{
    if recs.len() > 0 {
        lemma_observe_records_err_conflict(m, recs.drop_last());
        match spec_observe_records(m, recs.drop_last()) {
            Err(_) => {},
            Ok(m2) => {
                lemma_observe_fields_err_conflict(m2, recs.last());
            },
        }
    }
}

/// The merge reads only the objects the counts reach: sequences that agree on
/// that prefix merge alike.
proof fn lemma_merge_objects_prefix_agnostic(
    objs1: Seq<Vec<u8>>,
    objs2: Seq<Vec<u8>>,
    counts: Seq<int>,
)
    requires
        counts.len() <= objs1.len(),
        counts.len() <= objs2.len(),
        forall|i: int| 0 <= i < counts.len() ==> objs1[i] == objs2[i],
    ensures
        spec_merge_objects(objs1, counts) == spec_merge_objects(objs2, counts),
    decreases counts.len(),
{
    if counts.len() > 0 {
        lemma_merge_objects_prefix_agnostic(objs1, objs2, counts.drop_last());
    }
}

/// With every object parsing and every record sampled, the merge over the
/// objects is the fold of the whole-object inference step, a conflict coming
/// out as the one possible error.
proof fn lemma_merge_objects_is_fold(objs: Seq<Vec<u8>>)
    requires
        all_objects_parse(objs),
    ensures
        spec_merge_objects(objs, object_lens(objs)) == (match objs.fold_left(
            Some(Map::<Seq<char>, (FieldType, bool)>::empty()),
            infer_fold_fn(),
        ) {
            Some(m) => Ok::<SchemaMap, FormatError>(m),
            None => Err::<SchemaMap, FormatError>(FormatError::SchemaConflict),
        }),
    decreases objs.len(),
{
    if objs.len() > 0 {
        let pre = objs.drop_last();
        let i = objs.len() - 1;
        assert(all_objects_parse(pre)) by {
            assert(forall|j: int| 0 <= j < pre.len() ==> pre[j] == objs[j]);
        }
        lemma_merge_objects_is_fold(pre);
        assert(object_lens(objs).drop_last() =~= object_lens(pre));
        lemma_merge_objects_prefix_agnostic(objs, pre, object_lens(pre));
        let lines = spec_split_lines(objs[i]@);
        assert(object_lens(objs)[i] == lines.len() as int);
        assert(lines.take(lines.len() as int) =~= lines);
        assert(object_all_records(objs[i]) is Ok);
        match object_all_records(objs[i]) {
            Err(_) => {},
            Ok(recs) => {
                lemma_observe_records_err_conflict(Map::empty(), recs);
            },
        }
    }
}

/// Inference is insensitive to the order of the source objects once the
/// record budget covers every record: over any two arrangements of the same
/// objects, all of whose record lines parse, it infers the same merged
/// schema, or reports a schema conflict on both.
pub proof fn lemma_infer_order_insensitive(
    objs1: Seq<Vec<u8>>,
    objs2: Seq<Vec<u8>>,
    b1: int,
    b2: int,
)
    requires
        objs1.to_multiset() == objs2.to_multiset(),
        b1 > total_records(objs1),
        b2 > total_records(objs2),
        all_objects_parse(objs1),
        all_objects_parse(objs2),
    ensures
        spec_infer(objs1, b1) == spec_infer(objs2, b2),
{
    assert(forall|i: int|
        0 <= i < object_lens(objs1).len() ==> #[trigger] object_lens(objs1)[i] >= 0);
    assert(forall|i: int|
        0 <= i < object_lens(objs2).len() ==> #[trigger] object_lens(objs2)[i] >= 0);
    lemma_take_counts_covering(object_lens(objs1), b1);
    lemma_take_counts_covering(object_lens(objs2), b2);
    lemma_merge_objects_is_fold(objs1);
    lemma_merge_objects_is_fold(objs2);
    let f = infer_fold_fn();
    assert forall|x: Vec<u8>, y: Vec<u8>, v: Option<SchemaMap>| #[trigger] f(f(v, x), y) == f(
        f(v, y),
        x,
    ) by {
        lemma_infer_step_swap(v, x, y);
    }
    vstd::seq_lib::lemma_fold_left_permutation(
        objs1,
        objs2,
        f,
        Some(Map::<Seq<char>, (FieldType, bool)>::empty()),
    );
}

/// Two adjacent whole-object inference steps commute.
proof fn lemma_infer_step_swap(v: Option<SchemaMap>, x: Vec<u8>, y: Vec<u8>)
    ensures
        infer_step(infer_step(v, x), y) == infer_step(infer_step(v, y), x),
{
    match (object_opt_map(x), object_opt_map(y)) {
        (Some(mx), Some(my)) => {
            lemma_merge_step_swap(v, mx, my);
        },
        _ => {},
    }
}

} // verus!
