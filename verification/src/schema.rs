//! Table schemas for line-delimited JSON sources: field types, the type
//! widening (least-upper-bound) rules, and schema merging by field name.

use vstd::prelude::*;
use crate::errors::FormatError;

verus! {

/// Logical type of one inferred field.
///
/// `Null` is the type of a field only ever seen as JSON `null`; it widens to
/// any other type. `Int64` widens to `Float64`. All other pairs of distinct
/// types are incompatible.
#[derive(Clone, Copy, Debug, PartialEq, Eq, Structural)]
pub enum FieldType {
    Null,
    Boolean,
    Int64,
    Float64,
    Utf8,
}

/// Least upper bound of two field types under the widening order, as a spec.
pub open spec fn spec_merge_types(a: FieldType, b: FieldType) -> Option<FieldType> {
    if a == b {
        Some(a)
    } else if a == FieldType::Null {
        Some(b)
    } else if b == FieldType::Null {
        Some(a)
    } else if (a == FieldType::Int64 && b == FieldType::Float64)
        || (a == FieldType::Float64 && b == FieldType::Int64) {
        Some(FieldType::Float64)
    } else {
        None
    }
}

/// Widens two field types to their least upper bound, or reports a conflict.
pub fn merge_types(a: FieldType, b: FieldType) -> (r: Result<FieldType, FormatError>)
    ensures
        r matches Ok(t) ==> spec_merge_types(a, b) == Some(t),
        r is Err <==> spec_merge_types(a, b) is None,
        r matches Err(e) ==> e == FormatError::SchemaConflict,
{
    if a == b {
        Ok(a)
    } else if a == FieldType::Null {
        Ok(b)
    } else if b == FieldType::Null {
        Ok(a)
    } else if (a == FieldType::Int64 && b == FieldType::Float64)
        || (a == FieldType::Float64 && b == FieldType::Int64) {
        Ok(FieldType::Float64)
    } else {
        Err(FormatError::SchemaConflict)
    }
}

/// Lifts `spec_merge_types` to optional operands, `None` meaning an earlier
/// conflict that propagates.
pub open spec fn merge_opt(a: Option<FieldType>, b: Option<FieldType>) -> Option<FieldType> {
    match (a, b) {
        (Some(x), Some(y)) => spec_merge_types(x, y),
        _ => None,
    }
}

/// Type widening is commutative.
pub proof fn lemma_merge_types_commutative(a: FieldType, b: FieldType)
    ensures
        spec_merge_types(a, b) == spec_merge_types(b, a),
{
}

/// Type widening is associative: widening in either grouping yields the same
/// type, and fails in one grouping exactly when it fails in the other.
pub proof fn lemma_merge_types_associative(a: FieldType, b: FieldType, c: FieldType)
    ensures
        merge_opt(spec_merge_types(a, b), Some(c)) == merge_opt(Some(a), spec_merge_types(b, c)),
{
}

/// One named, typed column of a schema.
#[derive(Clone, Debug)]
pub struct Field {
    pub name: String,
    pub data_type: FieldType,
    pub nullable: bool,
}

/// An ordered sequence of fields with pairwise distinct names.
#[derive(Clone, Debug)]
pub struct Schema {
    pub fields: Vec<Field>,
}

/// The name-to-definition map described by a sequence of fields.
pub open spec fn fields_map(fs: Seq<Field>) -> Map<Seq<char>, (FieldType, bool)>
    decreases fs.len(),
{
    if fs.len() == 0 {
        Map::empty()
    } else {
        fields_map(fs.drop_last()).insert(fs.last().name@, (fs.last().data_type, fs.last().nullable))
    }
}

/// A field name occurs in `fields_map(fs)` exactly when some field carries it.
pub proof fn lemma_fields_map_dom(fs: Seq<Field>, k: Seq<char>)
    ensures
        fields_map(fs).dom().contains(k) <==> exists|i: int| 0 <= i < fs.len() && fs[i].name@ == k,
    decreases fs.len(),
{
    if fs.len() > 0 {
        lemma_fields_map_dom(fs.drop_last(), k);
        if fields_map(fs).dom().contains(k) && fs.last().name@ != k {
            let i = choose|i: int| 0 <= i < fs.drop_last().len() && fs.drop_last()[i].name@ == k;
            assert(fs[i].name@ == k);
        }
        if exists|i: int| 0 <= i < fs.len() && fs[i].name@ == k {
            let i = choose|i: int| 0 <= i < fs.len() && fs[i].name@ == k;
            if i < fs.len() - 1 {
                assert(fs.drop_last()[i].name@ == k);
            }
        }
    }
}

impl Schema {
    /// The schema seen as a map from field name to (type, nullability).
    pub open spec fn spec_map(&self) -> Map<Seq<char>, (FieldType, bool)> {
        fields_map(self.fields@)
    }

    /// Well-formed: no two fields share a name.
    pub open spec fn wf(&self) -> bool {
        forall|i: int, j: int|
            0 <= i < j < self.fields@.len() ==> self.fields@[i].name@ != self.fields@[j].name@
    }

    /// The schema with no fields, produced for empty inputs.
    pub fn empty() -> (r: Schema)
        ensures
            r.wf(),
            r.spec_map() == Map::<Seq<char>, (FieldType, bool)>::empty(),
            r.fields@.len() == 0,
    {
        Schema { fields: Vec::new() }
    }
}

/// Merging two field definitions: widen the types, a field nullable in either
/// source stays nullable.
pub open spec fn field_lub(x: (FieldType, bool), y: (FieldType, bool)) -> Option<(FieldType, bool)> {
    match spec_merge_types(x.0, y.0) {
        Some(t) => Some((t, x.1 || y.1)),
        None => None,
    }
}

/// Two schema maps merge cleanly when every shared name widens to one type.
pub open spec fn schema_maps_compatible(
    a: Map<Seq<char>, (FieldType, bool)>,
    b: Map<Seq<char>, (FieldType, bool)>,
) -> bool {
    forall|k: Seq<char>|
        (#[trigger] a.dom().contains(k)) && #[trigger] b.dom().contains(k)
            ==> field_lub(a[k], b[k]) is Some
}

/// Union of two schema maps, widening the definitions of shared names.
/// Meaningful only where `schema_maps_compatible` holds.
pub open spec fn spec_merge_maps(
    a: Map<Seq<char>, (FieldType, bool)>,
    b: Map<Seq<char>, (FieldType, bool)>,
) -> Map<Seq<char>, (FieldType, bool)> {
    Map::new(
        |k: Seq<char>| a.dom().contains(k) || b.dom().contains(k),
        |k: Seq<char>|
            if a.dom().contains(k) && b.dom().contains(k) {
                match field_lub(a[k], b[k]) {
                    Some(v) => v,
                    None => (FieldType::Null, true),
                }
            } else if a.dom().contains(k) {
                a[k]
            } else {
                b[k]
            },
    )
}

/// Schema merging is commutative: the per-object schemas may be presented in
/// either order, both for whether the merge succeeds and for its result.
pub proof fn lemma_schema_merge_commutative(
    a: Map<Seq<char>, (FieldType, bool)>,
    b: Map<Seq<char>, (FieldType, bool)>,
)
    ensures
        schema_maps_compatible(a, b) == schema_maps_compatible(b, a),
        schema_maps_compatible(a, b) ==> spec_merge_maps(a, b) == spec_merge_maps(b, a),
{
    assert forall|k: Seq<char>|
        (#[trigger] a.dom().contains(k)) && #[trigger] b.dom().contains(k) implies
        field_lub(a[k], b[k]) == field_lub(b[k], a[k]) by {
        lemma_merge_types_commutative(a[k].0, b[k].0);
    }
    if schema_maps_compatible(a, b) {
        assert(spec_merge_maps(a, b) =~= spec_merge_maps(b, a));
    }
}

/// Schema merging is associative: merging in either grouping succeeds on the
/// same inputs and yields the same merged schema.
pub proof fn lemma_schema_merge_associative(
    a: Map<Seq<char>, (FieldType, bool)>,
    b: Map<Seq<char>, (FieldType, bool)>,
    c: Map<Seq<char>, (FieldType, bool)>,
)
    ensures
        (schema_maps_compatible(a, b) && schema_maps_compatible(spec_merge_maps(a, b), c))
            == (schema_maps_compatible(b, c) && schema_maps_compatible(a, spec_merge_maps(b, c))),
        schema_maps_compatible(a, b) && schema_maps_compatible(spec_merge_maps(a, b), c)
            ==> spec_merge_maps(spec_merge_maps(a, b), c) == spec_merge_maps(a, spec_merge_maps(b, c)),
{
    let ab = spec_merge_maps(a, b);
    let bc = spec_merge_maps(b, c);
    if schema_maps_compatible(a, b) && schema_maps_compatible(ab, c) {
        assert forall|k: Seq<char>|
            (#[trigger] b.dom().contains(k)) && #[trigger] c.dom().contains(k) implies
            field_lub(b[k], c[k]) is Some by {
            lemma_merge_types_associative(a_type(a, k), b[k].0, c[k].0);
            assert(ab.dom().contains(k));
        }
        assert(schema_maps_compatible(b, c));
        assert forall|k: Seq<char>|
            (#[trigger] a.dom().contains(k)) && #[trigger] bc.dom().contains(k) implies
            field_lub(a[k], bc[k]) is Some by {
            lemma_merge_types_associative(a[k].0, b_type(b, k), c_type(c, k));
            assert(ab.dom().contains(k));
        }
        assert(schema_maps_compatible(a, bc));
        assert forall|k: Seq<char>| #[trigger] spec_merge_maps(ab, c).dom().contains(k) implies
            spec_merge_maps(ab, c)[k] == spec_merge_maps(a, bc)[k] by {
            lemma_merge_types_associative(a_type(a, k), b_type(b, k), c_type(c, k));
        }
        assert(spec_merge_maps(ab, c) =~= spec_merge_maps(a, bc));
    }
    if schema_maps_compatible(b, c) && schema_maps_compatible(a, bc) {
        assert forall|k: Seq<char>|
            (#[trigger] a.dom().contains(k)) && #[trigger] b.dom().contains(k) implies
            field_lub(a[k], b[k]) is Some by {
            lemma_merge_types_associative(a[k].0, b[k].0, c_type(c, k));
            assert(bc.dom().contains(k));
        }
        assert(schema_maps_compatible(a, b));
        assert forall|k: Seq<char>|
            (#[trigger] ab.dom().contains(k)) && #[trigger] c.dom().contains(k) implies
            field_lub(ab[k], c[k]) is Some by {
            lemma_merge_types_associative(a_type(a, k), b_type(b, k), c[k].0);
            assert(bc.dom().contains(k));
        }
        assert(schema_maps_compatible(ab, c));
    }
}

/// In a schema with pairwise-distinct names, the map assigns each field its
/// own definition.
pub proof fn lemma_fields_map_at(fs: Seq<Field>, i: int)
    requires
        0 <= i < fs.len(),
        forall|p: int, q: int| 0 <= p < q < fs.len() ==> fs[p].name@ != fs[q].name@,
    ensures
        fields_map(fs).dom().contains(fs[i].name@),
        fields_map(fs)[fs[i].name@] == (fs[i].data_type, fs[i].nullable),
    decreases fs.len(),
{
    if i < fs.len() - 1 {
        lemma_fields_map_at(fs.drop_last(), i);
        assert(fs.drop_last()[i] == fs[i]);
        assert(fs[i].name@ != fs.last().name@);
    }
}

/// Updating one field in place, keeping its name, updates the schema map at
/// that name alone.
pub proof fn lemma_fields_map_update(fs: Seq<Field>, i: int, f: Field)
    requires
        0 <= i < fs.len(),
        f.name@ == fs[i].name@,
        forall|p: int, q: int| 0 <= p < q < fs.len() ==> fs[p].name@ != fs[q].name@,
    ensures
        fields_map(fs.update(i, f)) == fields_map(fs).insert(f.name@, (f.data_type, f.nullable)),
    decreases fs.len(),
{
    let upd = fs.update(i, f);
    if i == fs.len() - 1 {
        assert(upd.drop_last() =~= fs.drop_last());
        assert(upd.last() == f);
        assert(fields_map(upd) =~= fields_map(fs).insert(f.name@, (f.data_type, f.nullable)));
    } else {
        lemma_fields_map_update(fs.drop_last(), i, f);
        assert(upd.drop_last() =~= fs.drop_last().update(i, f));
        assert(upd.last() == fs.last());
        assert(fs[i].name@ != fs.last().name@);
        assert(fields_map(upd) =~= fields_map(fs).insert(f.name@, (f.data_type, f.nullable)));
    }
}

/// Finds the position of a field by name, if any.
pub fn find_field(fields: &Vec<Field>, name: &String) -> (r: Option<usize>)
    ensures
        r matches Some(i) ==> i < fields@.len() && fields@[i as int].name@ == name@,
        r is None ==> forall|i: int| 0 <= i < fields@.len() ==> fields@[i].name@ != name@,
{
    let mut i: usize = 0;
    while i < fields.len()
        invariant
            i <= fields@.len(),
            forall|j: int| 0 <= j < i ==> fields@[j].name@ != name@,
        decreases fields@.len() - i,
    {
        if fields[i].name == *name {
            return Some(i);
        }
        i = i + 1;
    }
    None
}

impl Schema {
    /// Copies the fields of this schema into a fresh vector.
    fn clone_fields(&self) -> (r: Vec<Field>)
        ensures
            r@ == self.fields@,
    {
        let mut out: Vec<Field> = Vec::new();
        let mut i: usize = 0;
        while i < self.fields.len()
            invariant
                i <= self.fields@.len(),
                out@.len() == i,
                forall|j: int| 0 <= j < i ==> out@[j] == self.fields@[j],
            decreases self.fields@.len() - i,
        {
            let f = &self.fields[i];
            out.push(Field { name: f.name.clone(), data_type: f.data_type, nullable: f.nullable });
            i = i + 1;
        }
        assert(out@ =~= self.fields@);
        out
    }

    /// Merges another schema into this one: field names are unioned, the
    /// definitions of shared names are widened, and a shared name whose types
    /// do not widen to one type is a conflict.
    pub fn merge(&self, other: &Schema) -> (r: Result<Schema, FormatError>)
        requires
            self.wf(),
            other.wf(),
        ensures
            r matches Ok(m) ==> m.wf() && m.spec_map() == spec_merge_maps(
                self.spec_map(),
                other.spec_map(),
            ),
            r is Ok <==> schema_maps_compatible(self.spec_map(), other.spec_map()),
            r matches Err(e) ==> e == FormatError::SchemaConflict,
    {
        let ghost a = self.spec_map();
        let mut fields: Vec<Field> = self.clone_fields();
        let mut i: usize = 0;
        while i < other.fields.len()
            invariant
                self.wf(),
                other.wf(),
                a == self.spec_map(),
                i <= other.fields@.len(),
                forall|p: int, q: int|
                    0 <= p < q < fields@.len() ==> fields@[p].name@ != fields@[q].name@,
                schema_maps_compatible(a, fields_map(other.fields@.take(i as int))),
                fields_map(fields@) == spec_merge_maps(
                    a,
                    fields_map(other.fields@.take(i as int)),
                ),
            decreases other.fields@.len() - i,
        {
            let g = &other.fields[i];
            let ghost bt = fields_map(other.fields@.take(i as int));
            proof {
                assert(other.fields@.take(i as int + 1).drop_last() =~= other.fields@.take(
                    i as int,
                ));
                assert(other.fields@.take(i as int + 1).last() == other.fields@[i as int]);
                lemma_fields_map_dom(other.fields@.take(i as int), g.name@);
            }
            match find_field(&fields, &g.name) {
                Some(idx) => {
                    let cur = &fields[idx];
                    let ghost k = g.name@;
                    let ghost gv = (g.data_type, g.nullable);
                    let ghost bt1 = fields_map(other.fields@.take(i as int + 1));
                    proof {
                        lemma_fields_map_dom(fields@, k);
                        lemma_fields_map_at(fields@, idx as int);
                        assert(bt1 == bt.insert(k, gv));
                        assert(!bt.dom().contains(k));
                        assert(a.dom().contains(k));
                        assert(a[k] == (cur.data_type, cur.nullable));
                    }
                    match merge_types(cur.data_type, g.data_type) {
                        Ok(t) => {
                            let merged = Field {
                                name: cur.name.clone(),
                                data_type: t,
                                nullable: cur.nullable || g.nullable,
                            };
                            proof {
                                lemma_fields_map_update(fields@, idx as int, merged);
                            }
                            fields.set(idx, merged);
                            proof {
                                assert(schema_maps_compatible(a, bt1));
                                assert(fields_map(fields@) =~= spec_merge_maps(a, bt1));
                            }
                        },
                        Err(e) => {
                            proof {
                                lemma_fields_map_at(other.fields@, i as int);
                            }
                            return Err(e);
                        },
                    }
                },
                None => {
                    let ghost k = g.name@;
                    let ghost gv = (g.data_type, g.nullable);
                    let ghost bt1 = fields_map(other.fields@.take(i as int + 1));
                    let ghost pre = fields@;
                    proof {
                        lemma_fields_map_dom(fields@, k);
                        assert(bt1 == bt.insert(k, gv));
                        assert(!bt.dom().contains(k));
                        assert(!a.dom().contains(k));
                    }
                    let added = Field {
                        name: g.name.clone(),
                        data_type: g.data_type,
                        nullable: g.nullable,
                    };
                    fields.push(added);
                    proof {
                        assert(fields@.drop_last() =~= pre);
                        assert(fields@.last() == added);
                        assert(fields_map(fields@) == fields_map(pre).insert(k, gv));
                        assert(schema_maps_compatible(a, bt1));
                        assert(fields_map(fields@) =~= spec_merge_maps(a, bt1));
                    }
                },
            }
            i = i + 1;
        }
        proof {
            assert(other.fields@.take(other.fields@.len() as int) =~= other.fields@);
        }
        Ok(Schema { fields })
    }
}

/// Merge of a sequence of schema maps, left to right, `None` once any step
/// hits a conflict.
pub open spec fn spec_merge_all(ms: Seq<Map<Seq<char>, (FieldType, bool)>>) -> Option<
    Map<Seq<char>, (FieldType, bool)>,
>
    decreases ms.len(),
{
    if ms.len() == 0 {
        Some(Map::empty())
    } else {
        match spec_merge_all(ms.drop_last()) {
            None => None,
            Some(acc) => if schema_maps_compatible(acc, ms.last()) {
                Some(spec_merge_maps(acc, ms.last()))
            } else {
                None
            },
        }
    }
}

/// The schema maps of a sequence of schemas.
pub open spec fn schema_maps_of(ss: Seq<Schema>) -> Seq<Map<Seq<char>, (FieldType, bool)>> {
    ss.map(|i: int, s: Schema| s.spec_map())
}

impl Schema {
    /// Merges every schema in order into one table schema; zero schemas yield
    /// the empty schema, and any conflicting pair of definitions is an error.
    pub fn try_merge(schemas: &Vec<Schema>) -> (r: Result<Schema, FormatError>)
        requires
            forall|i: int| 0 <= i < schemas@.len() ==> (#[trigger] schemas@[i]).wf(),
        ensures
            r matches Ok(m) ==> m.wf() && Some(m.spec_map()) == spec_merge_all(
                schema_maps_of(schemas@),
            ),
            r is Ok <==> spec_merge_all(schema_maps_of(schemas@)) is Some,
            r matches Err(e) ==> e == FormatError::SchemaConflict,
    {
        let mut acc = Schema::empty();
        let mut i: usize = 0;
        while i < schemas.len()
            invariant
                forall|k: int| 0 <= k < schemas@.len() ==> (#[trigger] schemas@[k]).wf(),
                i <= schemas@.len(),
                acc.wf(),
                Some(acc.spec_map()) == spec_merge_all(schema_maps_of(schemas@.take(i as int))),
            decreases schemas@.len() - i,
        {
            proof {
                assert(schema_maps_of(schemas@.take(i as int + 1)).drop_last()
                    =~= schema_maps_of(schemas@.take(i as int)));
                assert(schema_maps_of(schemas@.take(i as int + 1)).last()
                    == schemas@[i as int].spec_map());
            }
            match acc.merge(&schemas[i]) {
                Ok(m) => {
                    acc = m;
                },
                Err(e) => {
                    proof {
                        assert(spec_merge_all(schema_maps_of(schemas@.take(i as int + 1)))
                            is None);
                        assert(schema_maps_of(schemas@).take(i as int + 1) =~= schema_maps_of(
                            schemas@.take(i as int + 1),
                        ));
                        lemma_merge_all_conflict(schema_maps_of(schemas@), i as int);
                    }
                    return Err(e);
                },
            }
            i = i + 1;
        }
        proof {
            assert(schemas@.take(schemas@.len() as int) =~= schemas@);
        }
        Ok(acc)
    }
}

/// One step of the schema-map merge, with a conflict propagating as `None`.
pub open spec fn merge_step(
    acc: Option<Map<Seq<char>, (FieldType, bool)>>,
    m: Map<Seq<char>, (FieldType, bool)>,
) -> Option<Map<Seq<char>, (FieldType, bool)>> {
    match acc {
        None => None,
        Some(a) => if schema_maps_compatible(a, m) {
            Some(spec_merge_maps(a, m))
        } else {
            None
        },
    }
}

/// The merge step as a fold operator.
pub open spec fn merge_step_fn() -> spec_fn(
    Option<Map<Seq<char>, (FieldType, bool)>>,
    Map<Seq<char>, (FieldType, bool)>,
) -> Option<Map<Seq<char>, (FieldType, bool)>> {
    |acc: Option<Map<Seq<char>, (FieldType, bool)>>, m: Map<Seq<char>, (FieldType, bool)>|
        merge_step(acc, m)
}

/// Two adjacent merge steps commute: folding in `x` then `y` ends in the same
/// merged schema — or the same conflict — as `y` then `x`.
pub proof fn lemma_merge_step_swap(
    v: Option<Map<Seq<char>, (FieldType, bool)>>,
    x: Map<Seq<char>, (FieldType, bool)>,
    y: Map<Seq<char>, (FieldType, bool)>,
)
    ensures
        merge_step(merge_step(v, x), y) == merge_step(merge_step(v, y), x),
{
    match v {
        None => {},
        Some(a) => {
            lemma_schema_merge_associative(a, x, y);
            lemma_schema_merge_associative(a, y, x);
            lemma_schema_merge_commutative(x, y);
            lemma_schema_merge_commutative(a, x);
            lemma_schema_merge_commutative(a, y);
        },
    }
}

/// The left-to-right merge is the fold of `merge_step` from the empty schema.
pub proof fn lemma_merge_all_is_fold(ms: Seq<Map<Seq<char>, (FieldType, bool)>>)
    ensures
        spec_merge_all(ms) == ms.fold_left(
            Some(Map::<Seq<char>, (FieldType, bool)>::empty()),
            merge_step_fn(),
        ),
    decreases ms.len(),
{
    if ms.len() > 0 {
        lemma_merge_all_is_fold(ms.drop_last());
    }
}

/// Schema merging is insensitive to the order the per-object schemas arrive
/// in: over any two arrangements of the same schemas it succeeds on the same
/// inputs and yields the same merged schema.
pub proof fn lemma_merge_all_permutation(
    ms1: Seq<Map<Seq<char>, (FieldType, bool)>>,
    ms2: Seq<Map<Seq<char>, (FieldType, bool)>>,
)
    requires
        ms1.to_multiset() == ms2.to_multiset(),
    ensures
        spec_merge_all(ms1) == spec_merge_all(ms2),
{
    lemma_merge_all_is_fold(ms1);
    lemma_merge_all_is_fold(ms2);
    let f = merge_step_fn();
    assert forall|x: Map<Seq<char>, (FieldType, bool)>, y: Map<Seq<char>, (FieldType, bool)>, v:
        Option<Map<Seq<char>, (FieldType, bool)>>| #[trigger] f(f(v, x), y) == f(f(v, y), x) by {
        lemma_merge_step_swap(v, x, y);
    }
    vstd::seq_lib::lemma_fold_left_permutation(
        ms1,
        ms2,
        f,
        Some(Map::<Seq<char>, (FieldType, bool)>::empty()),
    );
}

/// Once the left-to-right merge hits a conflict at step `i`, the merge of the
/// whole sequence is a conflict.
pub proof fn lemma_merge_all_conflict(ms: Seq<Map<Seq<char>, (FieldType, bool)>>, i: int)
    requires
        0 <= i < ms.len(),
        spec_merge_all(ms.take(i + 1)) is None,
    ensures
        spec_merge_all(ms) is None,
    decreases ms.len() - i,
{
    if i + 1 < ms.len() {
        assert(ms.take(i + 2).drop_last() =~= ms.take(i + 1));
        lemma_merge_all_conflict(ms, i + 1);
    } else {
        assert(ms.take(i + 1) =~= ms);
    }
}

/// The type a map assigns to `k`, with `Null` (the widening identity) where
/// the name is absent; lets per-key arguments cover absent names uniformly.
pub open spec fn a_type(m: Map<Seq<char>, (FieldType, bool)>, k: Seq<char>) -> FieldType {
    if m.dom().contains(k) {
        m[k].0
    } else {
        FieldType::Null
    }
}

/// Synonym of `a_type` for readability of three-map arguments.
pub open spec fn b_type(m: Map<Seq<char>, (FieldType, bool)>, k: Seq<char>) -> FieldType {
    a_type(m, k)
}

/// Synonym of `a_type` for readability of three-map arguments.
pub open spec fn c_type(m: Map<Seq<char>, (FieldType, bool)>, k: Seq<char>) -> FieldType {
    a_type(m, k)
}

} // verus!
