//! Running compiled plans. A runtime value is a text leaf or a record of
//! named values; the formatter plan renders one to text, and a parser plan
//! reconstructs one from text, matching with the regex engine and assigning
//! captured texts per the construction plan. Converting a captured text into
//! a typed field value is the host's business; here every leaf stays text.

use vstd::prelude::*;
use crate::fmtplan::{FormatPlan, FormatStepV};
use crate::key::{FieldKey, KeyV};
use crate::plan::{
    ConstructModeV, EnumParsePlan, FieldPlanV, FieldSource, StructParsePlan, StructParsePlanV,
    VariantPlanV,
};
use crate::prog::MatchProgramV;
use crate::rx::spec_regex_captures;
use crate::text::{capture_name, spec_capture_name, str_eq};

verus! {

/// A runtime value: a text leaf, or a record of named fields.
#[derive(Debug)]
pub enum Value {
    Text(String),
    Record(Vec<NamedValue>),
}

/// One named field of a record value.
#[derive(Debug)]
pub struct NamedValue {
    pub key: FieldKey,
    pub value: Value,
}

/// The mathematical value of a runtime value.
pub enum ValueV {
    Text(Seq<char>),
    Record(Seq<(KeyV, ValueV)>),
}

/// The mathematical value of a runtime value, leaf by leaf.
pub open spec fn spec_value_view(v: Value) -> ValueV
    decreases v,
{
    match v {
        Value::Text(s) => ValueV::Text(s@),
        Value::Record(fs) => ValueV::Record(
            Seq::new(
                fs@.len(),
                |i: int|
                    (
                        fs@[i].key@,
                        if 0 <= i < fs@.len() {
                            spec_value_view(fs@[i].value)
                        } else {
                            ValueV::Text(Seq::empty())
                        },
                    ),
            ),
        ),
    }
}

impl View for Value {
    type V = ValueV;

    open spec fn view(&self) -> ValueV {
        spec_value_view(*self)
    }
}

/// Why a parse run fails: no program matched the input; the plan needs a
/// default value that the caller did not supply; or a deep slot's path does
/// not fit the shape of the value it writes into.
#[derive(Debug, Clone, Copy, PartialEq, Eq, Structural)]
pub enum ParseFailure {
    NoMatch,
    MissingDefault,
    UnreachablePath,
}

/// The value at a field key of a record, if any.
pub open spec fn spec_get_field(fields: Seq<(KeyV, ValueV)>, k: KeyV) -> Option<ValueV>
    decreases fields.len(),
{
    if fields.len() == 0 {
        None
    } else if fields[0].0 == k {
        Some(fields[0].1)
    } else {
        spec_get_field(fields.skip(1), k)
    }
}

/// The value at a path, walking records key by key.
pub open spec fn spec_get_path(v: ValueV, path: Seq<KeyV>) -> Option<ValueV>
    decreases path.len(),
{
    if path.len() == 0 {
        Some(v)
    } else {
        match v {
            ValueV::Text(_) => None,
            ValueV::Record(fs) => match spec_get_field(fs, path[0]) {
                Some(sub) => spec_get_path(sub, path.skip(1)),
                None => None,
            },
        }
    }
}

/// The record with the value at a key replaced; the first field with that
/// key is the one written.
pub open spec fn spec_set_field(fields: Seq<(KeyV, ValueV)>, k: KeyV, newv: ValueV) -> Option<
    Seq<(KeyV, ValueV)>,
>
    decreases fields.len(),
{
    if fields.len() == 0 {
        None
    } else if fields[0].0 == k {
        Some(seq![(k, newv)] + fields.skip(1))
    } else {
        match spec_set_field(fields.skip(1), k, newv) {
            Some(rest) => Some(seq![fields[0]] + rest),
            None => None,
        }
    }
}

/// The value with the leaf at a path replaced.
pub open spec fn spec_set_path(v: ValueV, path: Seq<KeyV>, newv: ValueV) -> Option<ValueV>
    decreases path.len(),
{
    if path.len() == 0 {
        Some(newv)
    } else {
        match v {
            ValueV::Text(_) => None,
            ValueV::Record(fs) => match spec_get_field(fs, path[0]) {
                Some(sub) => match spec_set_path(sub, path.skip(1), newv) {
                    Some(sub2) => match spec_set_field(fs, path[0], sub2) {
                        Some(fs2) => Some(ValueV::Record(fs2)),
                        None => None,
                    },
                    None => None,
                },
                None => None,
            },
        }
    }
}

/// The text a capture slot contributed: the group's text when it took part
/// in the match, and empty text otherwise, as the generated code reads it.
pub open spec fn spec_slot_text(caps: Seq<Option<Seq<char>>>, slot: usize) -> Seq<char> {
    if 1 <= slot <= caps.len() {
        match caps[slot - 1] {
            Some(t) => t,
            None => Seq::empty(),
        }
    } else {
        Seq::empty()
    }
}

/// What the first-match field lookup means.
proof fn lemma_get_field_char(fields: Seq<(KeyV, ValueV)>, k: KeyV)
    ensures
        match spec_get_field(fields, k) {
            Some(x) => exists|i: int|
                0 <= i < fields.len() && (#[trigger] fields[i]).0 == k && fields[i].1 == x && (
                forall|j: int| 0 <= j < i ==> (#[trigger] fields[j]).0 != k),
            None => forall|j: int| 0 <= j < fields.len() ==> (#[trigger] fields[j]).0 != k,
        },
    decreases fields.len(),
{
    if fields.len() > 0 && fields[0].0 != k {
        lemma_get_field_char(fields.skip(1), k);
        assert(forall|j: int| 1 <= j < fields.len() ==> fields[j] == fields.skip(1)[j - 1]);
        if spec_get_field(fields.skip(1), k) is Some {
            let i0 = choose|i: int|
                0 <= i < fields.skip(1).len() && (#[trigger] fields.skip(1)[i]).0 == k && fields
                    .skip(1)[i].1 == spec_get_field(fields.skip(1), k).unwrap() && (forall|j: int|
                    0 <= j < i ==> (#[trigger] fields.skip(1)[j]).0 != k);
            assert(fields[i0 + 1].0 == k && fields[i0 + 1].1 == spec_get_field(
                fields,
                k,
            ).unwrap());
            assert(forall|j: int| 0 <= j < i0 + 1 ==> (#[trigger] fields[j]).0 != k);
        }
    }
}

/// Writing the first field with a key updates exactly that position.
proof fn lemma_set_field_at(fields: Seq<(KeyV, ValueV)>, k: KeyV, newv: ValueV, j: int)
    requires
        0 <= j < fields.len(),
        fields[j].0 == k,
        forall|i: int| 0 <= i < j ==> (#[trigger] fields[i]).0 != k,
    ensures
        spec_set_field(fields, k, newv) == Some(fields.update(j, (k, newv))),
    decreases j,
{
    if j == 0 {
        assert(seq![(k, newv)] + fields.skip(1) =~= fields.update(0, (k, newv)));
    } else {
        lemma_set_field_at(fields.skip(1), k, newv, j - 1);
        assert(seq![fields[0]] + fields.skip(1).update(j - 1, (k, newv)) =~= fields.update(
            j,
            (k, newv),
        ));
    }
}

/// A record value's model is its fields' models.
pub proof fn lemma_record_view(fs: Vec<NamedValue>)
    ensures
        Value::Record(fs)@ == ValueV::Record(spec_record_fields(fs@)),
{
    assert(spec_value_view(Value::Record(fs))->Record_0 =~= spec_record_fields(fs@));
}

/// The record fields of a value, as the model sees them.
pub open spec fn spec_record_fields(fs: Seq<NamedValue>) -> Seq<(KeyV, ValueV)> {
    Seq::new(
        fs.len(),
        |i: int|
            (
                fs[i].key@,
                if 0 <= i < fs.len() {
                    spec_value_view(fs[i].value)
                } else {
                    ValueV::Text(Seq::empty())
                },
            ),
    )
}

impl Value {
    /// The value at a path below this one, if the path stays on records and
    /// every key exists.
    pub fn get_path(&self, path: &Vec<FieldKey>, from: usize) -> (r: Option<&Value>)
        requires
            from <= path@.len(),
        ensures
            match spec_get_path(self@, path.deep_view().skip(from as int)) {
                Some(x) => r matches Some(rv) && rv@ == x,
                None => r is None,
            },
        decreases path@.len() - from,
    {
        if from == path.len() {
            proof {
                assert(path.deep_view().skip(from as int) =~= Seq::<KeyV>::empty());
            }
            return Some(self);
        }
        proof {
            crate::lemma_vec_deep_view_is(*path);
            assert(path.deep_view().skip(from as int)[0] == path@[from as int]@);
            assert(path.deep_view().skip(from as int).skip(1) =~= path.deep_view().skip(
                from + 1 as int,
            ));
        }
        match self {
            Value::Text(_) => None,
            Value::Record(fs) => {
                proof {
                    assert(spec_value_view(*self)->Record_0 =~= spec_record_fields(fs@));
                    lemma_get_field_char(spec_record_fields(fs@), path@[from as int]@);
                }
                let n = path.len();
                let mut i: usize = 0;
                while i < fs.len()
                    invariant
                        i <= fs@.len(),
                        from < n,
                        n == path@.len(),
                        path.deep_view().len() == path@.len(),
                        self@ == ValueV::Record(spec_record_fields(fs@)),
                        path.deep_view()[from as int] == path@[from as int]@,
                        forall|j: int|
                            0 <= j < i ==> (#[trigger] spec_record_fields(fs@)[j]).0 != path@[
                                from as int
                            ]@,
                    decreases fs@.len() - i,
                {
                    if &fs[i].key == &path[from] {
                        proof {
                            assert(path.deep_view().skip(from as int)[0] == path@[from as int]@);
                            assert(path.deep_view().skip(from as int).skip(1)
                                =~= path.deep_view().skip(from + 1 as int));
                            assert(spec_record_fields(fs@)[i as int].0 == path@[from as int]@);
                            lemma_get_field_char(
                                spec_record_fields(fs@),
                                path@[from as int]@,
                            );
                            assert(spec_get_field(
                                spec_record_fields(fs@),
                                path@[from as int]@,
                            ) == Some(spec_record_fields(fs@)[i as int].1));
                        }
                        return fs[i].value.get_path(path, from + 1);
                    }
                    i += 1;
                }
                proof {
                    assert(path.deep_view().skip(from as int)[0] == path@[from as int]@);
                    lemma_get_field_char(spec_record_fields(fs@), path@[from as int]@);
                }
                None
            },
        }
    }

    /// This value with the leaf at a path replaced; fails where the path
    /// leaves the record structure.
    pub fn set_path(self, path: &Vec<FieldKey>, from: usize, newv: Value) -> (r: Option<Value>)
        requires
            from <= path@.len(),
        ensures
            match spec_set_path(self@, path.deep_view().skip(from as int), newv@) {
                Some(x) => r matches Some(rv) && rv@ == x,
                None => r is None,
            },
        decreases path@.len() - from,
    {
        if from == path.len() {
            proof {
                assert(path.deep_view().skip(from as int) =~= Seq::<KeyV>::empty());
            }
            return Some(newv);
        }
        proof {
            crate::lemma_vec_deep_view_is(*path);
            assert(path.deep_view().skip(from as int)[0] == path@[from as int]@);
            assert(path.deep_view().skip(from as int).skip(1) =~= path.deep_view().skip(
                from + 1 as int,
            ));
        }
        match self {
            Value::Text(_) => None,
            Value::Record(fs) => {
                let ghost fs0 = fs@;
                proof {
                    lemma_record_view(fs);
                    lemma_get_field_char(spec_record_fields(fs0), path@[from as int]@);
                }
                let mut fs = fs;
                let mut j: usize = 0;
                while j < fs.len() && !(&fs[j].key == &path[from])
                    invariant
                        j <= fs@.len(),
                        from < path@.len(),
                        fs@ == fs0,
                        forall|jj: int|
                            0 <= jj < j ==> (#[trigger] spec_record_fields(fs0)[jj]).0 != path@[
                                from as int
                            ]@,
                    decreases fs@.len() - j,
                {
                    proof {
                        assert(spec_record_fields(fs0)[j as int].0 != path@[from as int]@);
                    }
                    j += 1;
                }
                if j == fs.len() {
                    proof {
                        lemma_get_field_char(spec_record_fields(fs0), path@[from as int]@);
                    }
                    return None;
                }
                proof {
                    assert(spec_record_fields(fs0)[j as int].0 == path@[from as int]@);
                    lemma_get_field_char(spec_record_fields(fs0), path@[from as int]@);
                    assert(spec_get_field(spec_record_fields(fs0), path@[from as int]@) == Some(
                        spec_record_fields(fs0)[j as int].1,
                    ));
                }
                let nv = fs.remove(j);
                proof {
                    assert(nv == fs0[j as int]);
                }
                let NamedValue { key, value } = nv;
                proof {
                    assert(key@ == path@[from as int]@);
                    assert(value@ == spec_record_fields(fs0)[j as int].1);
                }
                let sub2 = match value.set_path(path, from + 1, newv) {
                    Some(s) => s,
                    None => {
                        return None;
                    },
                };
                let ghost sub2g = sub2;
                let item = NamedValue { key, value: sub2 };
                let ghost itemg = item;
                fs.insert(j, item);
                proof {
                    lemma_set_field_at(
                        spec_record_fields(fs0),
                        path@[from as int]@,
                        sub2g@,
                        j as int,
                    );
                    assert(fs@ =~= fs0.update(j as int, itemg));
                    assert forall|k: int| 0 <= k < fs@.len() implies spec_record_fields(fs@)[k]
                        == spec_record_fields(fs0).update(
                        j as int,
                        (path@[from as int]@, sub2g@),
                    )[k] by {
                        if k != j {
                            assert(fs@[k] == fs0[k]);
                        }
                    }
                    assert(spec_record_fields(fs@) =~= spec_record_fields(fs0).update(
                        j as int,
                        (path@[from as int]@, sub2g@),
                    ));
                    lemma_record_view(fs);
                }
                Some(Value::Record(fs))
            },
        }
    }
}

/// Copies a runtime value.
pub fn clone_value(v: &Value) -> (r: Value)
    ensures
        r@ == v@,
    decreases *v,
{
    match v {
        Value::Text(s) => Value::Text(s.clone()),
        Value::Record(fs) => {
            let mut out: Vec<NamedValue> = Vec::new();
            let mut i: usize = 0;
            while i < fs.len()
                invariant
                    i <= fs@.len(),
                    v is Record,
                    *fs == v->Record_0,
                    out@.len() == i,
                    forall|k: int|
                        0 <= k < i ==> (#[trigger] out@[k]).key@ == fs@[k].key@ && spec_value_view(
                            out@[k].value,
                        ) == spec_value_view(fs@[k].value),
                decreases fs@.len() - i,
            {
                proof {
                    broadcast use vstd::seq::axiom_seq_index_decreases;

                    assert(*fs == v->Record_0);
                    assert(decreases_to!(*v => v->Record_0));
                    assert(decreases_to!(*fs => fs@));
                    assert(decreases_to!(fs@ => fs@[i as int]));
                    assert(decreases_to!(fs@[i as int] => fs@[i as int].value));
                    assert(decreases_to!(*v => fs@[i as int].value));
                }
                let nv = NamedValue { key: fs[i].key.clone(), value: clone_value(&fs[i].value) };
                out.push(nv);
                i += 1;
            }
            proof {
                lemma_record_view(out);
                assert(spec_record_fields(out@) =~= spec_record_fields(fs@));
                assert(spec_value_view(*v)->Record_0 =~= spec_record_fields(fs@));
            }
            Value::Record(out)
        },
    }
}

/// The text a slot holds, as the constructed value receives it.
fn slot_text(caps: &Vec<Option<String>>, slot: usize) -> (r: String)
    ensures
        r@ == spec_slot_text(caps.deep_view(), slot),
{
    proof {
        crate::lemma_vec_deep_view_is(*caps);
    }
    if 1 <= slot && slot <= caps.len() {
        match &caps[slot - 1] {
            Some(t) => t.clone(),
            None => String::new(),
        }
    } else {
        String::new()
    }
}

/// The base value of one field: its slot's text, or its piece of the
/// supplied default.
pub open spec fn spec_field_base(
    f: FieldPlanV,
    caps: Seq<Option<Seq<char>>>,
    default: Option<ValueV>,
) -> Result<ValueV, ParseFailure> {
    match f.source {
        FieldSource::FromCapture(slot) => Ok(ValueV::Text(spec_slot_text(caps, slot))),
        FieldSource::FromDefault => match default {
            Some(ValueV::Record(dfs)) => match spec_get_field(dfs, f.key) {
                Some(x) => Ok(x),
                None => Err(ParseFailure::MissingDefault),
            },
            _ => Err(ParseFailure::MissingDefault),
        },
        FieldSource::Untouched => Err(ParseFailure::MissingDefault),
    }
}

/// Deep slots written into a field's value, first-encountered first.
pub open spec fn spec_apply_deep(
    v: ValueV,
    deep: Seq<crate::builder::DeepCaptureV>,
    caps: Seq<Option<Seq<char>>>,
) -> Result<ValueV, ParseFailure>
    decreases deep.len(),
{
    if deep.len() == 0 {
        Ok(v)
    } else {
        match spec_set_path(v, deep[0].path, ValueV::Text(spec_slot_text(caps, deep[0].slot))) {
            Some(v2) => spec_apply_deep(v2, deep.skip(1), caps),
            None => Err(ParseFailure::UnreachablePath),
        }
    }
}

/// The fields of a directly constructed record, in declaration order.
pub open spec fn spec_build_fields(
    fields: Seq<FieldPlanV>,
    caps: Seq<Option<Seq<char>>>,
    default: Option<ValueV>,
) -> Result<Seq<(KeyV, ValueV)>, ParseFailure>
    decreases fields.len(),
{
    if fields.len() == 0 {
        Ok(Seq::empty())
    } else {
        match spec_field_base(fields[0], caps, default) {
            Err(e) => Err(e),
            Ok(base) => match spec_apply_deep(base, fields[0].deep, caps) {
                Err(e) => Err(e),
                Ok(v) => match spec_build_fields(fields.skip(1), caps, default) {
                    Err(e) => Err(e),
                    Ok(rest) => Ok(seq![(fields[0].key, v)] + rest),
                },
            },
        }
    }
}

/// Captures and deep slots written over a default value, field by field.
pub open spec fn spec_apply_over_default(
    d: ValueV,
    fields: Seq<FieldPlanV>,
    caps: Seq<Option<Seq<char>>>,
) -> Result<ValueV, ParseFailure>
    decreases fields.len(),
{
    if fields.len() == 0 {
        Ok(d)
    } else {
        let f = fields[0];
        let d1 = if f.source is FromCapture {
            spec_set_path(
                d,
                seq![f.key],
                ValueV::Text(spec_slot_text(caps, f.source->FromCapture_0)),
            )
        } else {
            Some(d)
        };
        match d1 {
            None => Err(ParseFailure::UnreachablePath),
            Some(d1) => match spec_apply_deep_at(d1, f.key, f.deep, caps) {
                Err(e) => Err(e),
                Ok(d2) => spec_apply_over_default(d2, fields.skip(1), caps),
            },
        }
    }
}

/// Deep slots of one field written through the whole value.
pub open spec fn spec_apply_deep_at(
    v: ValueV,
    key: KeyV,
    deep: Seq<crate::builder::DeepCaptureV>,
    caps: Seq<Option<Seq<char>>>,
) -> Result<ValueV, ParseFailure>
    decreases deep.len(),
{
    if deep.len() == 0 {
        Ok(v)
    } else {
        match spec_set_path(
            v,
            seq![key] + deep[0].path,
            ValueV::Text(spec_slot_text(caps, deep[0].slot)),
        ) {
            Some(v2) => spec_apply_deep_at(v2, key, deep.skip(1), caps),
            None => Err(ParseFailure::UnreachablePath),
        }
    }
}

/// The value a construction plan yields from the captured texts: a record
/// built field by field, or the default value with captures written over it.
/// A custom constructor's expression is the host's to evaluate; here its
/// materialized fields are the result.
pub open spec fn spec_construct(
    c: crate::plan::ConstructPlanV,
    caps: Seq<Option<Seq<char>>>,
    default: Option<ValueV>,
) -> Result<ValueV, ParseFailure> {
    if c.mode is FromDefault {
        match default {
            None => Err(ParseFailure::MissingDefault),
            Some(d) => spec_apply_over_default(d, c.fields, caps),
        }
    } else {
        match spec_build_fields(c.fields, caps, default) {
            Err(e) => Err(e),
            Ok(fs) => Ok(ValueV::Record(fs)),
        }
    }
}

/// Builds the value a construction plan yields from the captured texts.
pub fn construct(
    c: &crate::plan::ConstructPlan,
    caps: &Vec<Option<String>>,
    default: Option<&Value>,
) -> (r: Result<Value, ParseFailure>)
    ensures
        match spec_construct(c@, caps.deep_view(), spec_default_view(default)) {
            Ok(v) => r matches Ok(rv) && rv@ == v,
            Err(e) => r == Err::<Value, ParseFailure>(e),
        },
{
    let ghost capsm = caps.deep_view();
    let ghost dv = spec_default_view(default);
    let from_default = matches!(c.mode, crate::plan::ConstructMode::FromDefault);
    if from_default {
        let d = match default {
            Some(d) => clone_value(d),
            None => {
                return Err(ParseFailure::MissingDefault);
            },
        };
        let ghost fieldsm = c.fields.deep_view();
        let mut cur = d;
        let mut i: usize = 0;
        proof {
            crate::lemma_vec_deep_view_is(c.fields);
            assert(fieldsm.skip(0) =~= fieldsm);
        }
        while i < c.fields.len()
            invariant
                i <= c.fields@.len(),
                capsm == caps.deep_view(),
                fieldsm == c.fields.deep_view(),
                fieldsm.len() == c.fields@.len(),
                forall|k: int|
                    0 <= k < c.fields@.len() ==> #[trigger] fieldsm[k] == c.fields@[
                        k
                    ].deep_view(),
                c@.mode is FromDefault,
                dv == spec_default_view(default),
                dv is Some,
                spec_apply_over_default(cur@, fieldsm.skip(i as int), capsm)
                    == spec_apply_over_default(dv.unwrap(), fieldsm, capsm),
            decreases c.fields@.len() - i,
        {
            proof {
                assert(fieldsm.skip(i as int)[0] == fieldsm[i as int]);
                assert(fieldsm.skip(i as int).skip(1) =~= fieldsm.skip(i + 1 as int));
            }
            let f = &c.fields[i];
            if let FieldSource::FromCapture(slot) = f.source {
                let mut p: Vec<FieldKey> = Vec::new();
                p.push(f.key.clone());
                proof {
                    crate::lemma_vec_deep_view_is(p);
                    assert(p.deep_view() =~= seq![fieldsm[i as int].key]);
                    assert(p.deep_view().skip(0) =~= p.deep_view());
                }
                let t = slot_text(caps, slot);
                let ghost cpre = cur@;
                cur = match cur.set_path(&p, 0, Value::Text(t)) {
                    Some(v) => v,
                    None => {
                        proof {
                            assert(spec_apply_over_default(cpre, fieldsm.skip(i as int), capsm)
                                == Err::<ValueV, ParseFailure>(ParseFailure::UnreachablePath));
                        }
                        return Err(ParseFailure::UnreachablePath);
                    },
                };
            }
            let ghost cur1 = cur@;
            let ghost deepm = f.deep.deep_view();
            let mut k: usize = 0;
            proof {
                crate::lemma_vec_deep_view_is(f.deep);
                assert(deepm.skip(0) =~= deepm);
            }
            while k < f.deep.len()
                invariant
                    k <= f.deep@.len(),
                    capsm == caps.deep_view(),
                    deepm == f.deep.deep_view(),
                    deepm.len() == f.deep@.len(),
                    fieldsm == c.fields.deep_view(),
                    i < c.fields@.len(),
                    *f == c.fields@[i as int],
                    fieldsm[i as int] == c.fields@[i as int].deep_view(),
                    forall|kk: int|
                        0 <= kk < f.deep@.len() ==> #[trigger] deepm[kk] == f.deep@[
                            kk
                        ].deep_view(),
                    c@.mode is FromDefault,
                    dv == spec_default_view(default),
                    dv is Some,
                    spec_apply_over_default(dv.unwrap(), fieldsm, capsm) == (match
                        spec_apply_deep_at(cur1, fieldsm[i as int].key, deepm, capsm) {
                        Ok(d2) => spec_apply_over_default(d2, fieldsm.skip(i + 1 as int), capsm),
                        Err(e) => Err(e),
                    }),
                    spec_apply_deep_at(cur@, fieldsm[i as int].key, deepm.skip(k as int), capsm)
                        == spec_apply_deep_at(cur1, fieldsm[i as int].key, deepm, capsm),
                decreases f.deep@.len() - k,
            {
                proof {
                    assert(deepm.skip(k as int)[0] == deepm[k as int]);
                    assert(deepm.skip(k as int).skip(1) =~= deepm.skip(k + 1 as int));
                }
                let dc = &f.deep[k];
                let mut p: Vec<FieldKey> = Vec::new();
                p.push(f.key.clone());
                let mut z: usize = 0;
                let ghost pbase = p.deep_view();
                proof {
                    crate::lemma_vec_deep_view_is(p);
                    assert(pbase =~= seq![fieldsm[i as int].key]);
                }
                while z < dc.path.len()
                    invariant
                        z <= dc.path@.len(),
                        pbase =~= seq![fieldsm[i as int].key],
                        dc.path.deep_view().len() == dc.path@.len(),
                        forall|q: int|
                            0 <= q < dc.path@.len() ==> #[trigger] dc.path.deep_view()[q] == dc
                                .path@[q].deep_view(),
                        p.deep_view() =~= pbase + dc.path.deep_view().subrange(0, z as int),
                    decreases dc.path@.len() - z,
                {
                    proof {
                        crate::lemma_vec_deep_view_is(dc.path);
                    }
                    let ghost pprev = p;
                    let kk = dc.path[z].clone();
                    let ghost kkg = kk;
                    p.push(kk);
                    proof {
                        crate::lemma_vec_push_deep_view(p, pprev, kkg);
                        assert(p.deep_view() =~= pbase + dc.path.deep_view().subrange(
                            0,
                            z + 1 as int,
                        ));
                    }
                    z += 1;
                }
                proof {
                    crate::lemma_vec_deep_view_is(dc.path);
                    assert(dc.path.deep_view().subrange(0, dc.path@.len() as int) =~= dc
                        .path.deep_view());
                    assert(p.deep_view() =~= seq![fieldsm[i as int].key] + deepm[
                        k as int
                    ].path);
                    assert(p.deep_view().skip(0) =~= p.deep_view());
                }
                let t = slot_text(caps, dc.slot);
                let ghost cpre2 = cur@;
                cur = match cur.set_path(&p, 0, Value::Text(t)) {
                    Some(v) => v,
                    None => {
                        proof {
                            assert(spec_apply_deep_at(
                                cpre2,
                                fieldsm[i as int].key,
                                deepm.skip(k as int),
                                capsm,
                            ) == Err::<ValueV, ParseFailure>(ParseFailure::UnreachablePath));
                        }
                        return Err(ParseFailure::UnreachablePath);
                    },
                };
                k += 1;
            }
            proof {
                assert(deepm.skip(deepm.len() as int) =~= Seq::<
                    crate::builder::DeepCaptureV,
                >::empty());
            }
            i += 1;
        }
        proof {
            assert(fieldsm.skip(fieldsm.len() as int) =~= Seq::<FieldPlanV>::empty());
        }
        Ok(cur)
    } else {
        let ghost fieldsm = c.fields.deep_view();
        let mut out: Vec<NamedValue> = Vec::new();
        let mut i: usize = 0;
        proof {
            crate::lemma_vec_deep_view_is(c.fields);
            assert(fieldsm.skip(0) =~= fieldsm);
        }
        while i < c.fields.len()
            invariant
                i <= c.fields@.len(),
                capsm == caps.deep_view(),
                dv == spec_default_view(default),
                fieldsm == c.fields.deep_view(),
                fieldsm.len() == c.fields@.len(),
                forall|k: int|
                    0 <= k < c.fields@.len() ==> #[trigger] fieldsm[k] == c.fields@[
                        k
                    ].deep_view(),
                !(c@.mode is FromDefault),
                spec_build_fields(fieldsm, capsm, dv) == (match spec_build_fields(
                    fieldsm.skip(i as int),
                    capsm,
                    dv,
                ) {
                    Ok(rest) => Ok(spec_record_fields(out@) + rest),
                    Err(e) => Err(e),
                }),
            decreases c.fields@.len() - i,
        {
            proof {
                assert(fieldsm.skip(i as int)[0] == fieldsm[i as int]);
                assert(fieldsm.skip(i as int).skip(1) =~= fieldsm.skip(i + 1 as int));
            }
            let f = &c.fields[i];
            let base: Value = match f.source {
                FieldSource::FromCapture(slot) => Value::Text(slot_text(caps, slot)),
                FieldSource::FromDefault => {
                    let dval = match default {
                        Some(d) => d,
                        None => {
                            return Err(ParseFailure::MissingDefault);
                        },
                    };
                    match dval {
                        Value::Text(_) => {
                            return Err(ParseFailure::MissingDefault);
                        },
                        Value::Record(dfs) => {
                            proof {
                                lemma_record_view(*dfs);
                            }
                            let mut z: usize = 0;
                            while z < dfs.len() && !(&dfs[z].key == &f.key)
                                invariant
                                    z <= dfs@.len(),
                                    i < c.fields@.len(),
                                    *f == c.fields@[i as int],
                                    fieldsm[i as int] == c.fields@[i as int].deep_view(),
                                    forall|q: int|
                                        0 <= q < z ==> (#[trigger] spec_record_fields(dfs@)[
                                            q
                                        ]).0 != fieldsm[i as int].key,
                                decreases dfs@.len() - z,
                            {
                                proof {
                                    assert(spec_record_fields(dfs@)[z as int].0 != fieldsm[
                                        i as int
                                    ].key);
                                }
                                z += 1;
                            }
                            proof {
                                lemma_record_view(*dfs);
                                lemma_get_field_char(
                                    spec_record_fields(dfs@),
                                    fieldsm[i as int].key,
                                );
                            }
                            if z == dfs.len() {
                                return Err(ParseFailure::MissingDefault);
                            }
                            proof {
                                assert(spec_record_fields(dfs@)[z as int].0 == fieldsm[
                                    i as int
                                ].key);
                                assert(spec_get_field(
                                    spec_record_fields(dfs@),
                                    fieldsm[i as int].key,
                                ) == Some(spec_record_fields(dfs@)[z as int].1));
                            }
                            clone_value(&dfs[z].value)
                        },
                    }
                },
                FieldSource::Untouched => {
                    return Err(ParseFailure::MissingDefault);
                },
            };
            let ghost base0 = base@;
            let ghost deepm = f.deep.deep_view();
            let mut cur = base;
            let mut k: usize = 0;
            proof {
                crate::lemma_vec_deep_view_is(f.deep);
                assert(deepm.skip(0) =~= deepm);
            }
            while k < f.deep.len()
                invariant
                    k <= f.deep@.len(),
                    capsm == caps.deep_view(),
                    deepm == f.deep.deep_view(),
                    deepm.len() == f.deep@.len(),
                    i < c.fields@.len(),
                    *f == c.fields@[i as int],
                    forall|kk: int|
                        0 <= kk < f.deep@.len() ==> #[trigger] deepm[kk] == f.deep@[
                            kk
                        ].deep_view(),
                    !(c@.mode is FromDefault),
                    dv == spec_default_view(default),
                    fieldsm == c.fields.deep_view(),
                    fieldsm.len() == c.fields@.len(),
                    fieldsm[i as int].deep == deepm,
                    spec_field_base(fieldsm[i as int], capsm, dv) == Ok::<ValueV, ParseFailure>(
                        base0,
                    ),
                    spec_build_fields(fieldsm, capsm, dv) == (match spec_build_fields(
                        fieldsm.skip(i as int),
                        capsm,
                        dv,
                    ) {
                        Ok(rest) => Ok(spec_record_fields(out@) + rest),
                        Err(e) => Err(e),
                    }),
                    fieldsm.skip(i as int)[0] == fieldsm[i as int],
                    fieldsm.skip(i as int).skip(1) == fieldsm.skip(i + 1 as int),
                    spec_apply_deep(cur@, deepm.skip(k as int), capsm) == spec_apply_deep(
                        base0,
                        deepm,
                        capsm,
                    ),
                decreases f.deep@.len() - k,
            {
                proof {
                    assert(deepm.skip(k as int)[0] == deepm[k as int]);
                    assert(deepm.skip(k as int).skip(1) =~= deepm.skip(k + 1 as int));
                }
                let dc = &f.deep[k];
                proof {
                    assert(dc.path.deep_view().skip(0) =~= dc.path.deep_view());
                }
                let t = slot_text(caps, dc.slot);
                let ghost cpre3 = cur@;
                cur = match cur.set_path(&dc.path, 0, Value::Text(t)) {
                    Some(v) => v,
                    None => {
                        proof {
                            assert(spec_apply_deep(cpre3, deepm.skip(k as int), capsm) == Err::<
                                ValueV,
                                ParseFailure,
                            >(ParseFailure::UnreachablePath));
                            assert(spec_build_fields(fieldsm.skip(i as int), capsm, dv) == Err::<
                                Seq<(KeyV, ValueV)>,
                                ParseFailure,
                            >(ParseFailure::UnreachablePath));
                        }
                        return Err(ParseFailure::UnreachablePath);
                    },
                };
                k += 1;
            }
            proof {
                assert(deepm.skip(deepm.len() as int) =~= Seq::<
                    crate::builder::DeepCaptureV,
                >::empty());
            }
            let ghost curg = cur@;
            let nv = NamedValue { key: f.key.clone(), value: cur };
            let ghost nvg = nv;
            let ghost out0 = out@;
            out.push(nv);
            proof {
                assert(out@ =~= out0.push(nvg));
                assert forall|q: int| 0 <= q < out@.len() implies spec_record_fields(out@)[q]
                    == (spec_record_fields(out0) + seq![
                    (fieldsm[i as int].key, curg),
                ])[q] by {
                    if q < out0.len() {
                        assert(out@[q] == out0[q]);
                    } else {
                        assert(out@[q] == nvg);
                    }
                }
                assert(spec_record_fields(out@) =~= spec_record_fields(out0) + seq![
                    (fieldsm[i as int].key, curg),
                ]);
                assert(spec_apply_deep(base0, fieldsm[i as int].deep, capsm)
                    == Ok::<ValueV, ParseFailure>(curg));
                assert(spec_field_base(fieldsm[i as int], capsm, dv) == Ok::<
                    ValueV,
                    ParseFailure,
                >(base0));
                let step = spec_build_fields(fieldsm.skip(i + 1 as int), capsm, dv);
                assert(spec_build_fields(fieldsm.skip(i as int), capsm, dv) == (match step {
                    Ok(rest) => Ok::<Seq<(KeyV, ValueV)>, ParseFailure>(seq![
                        (fieldsm[i as int].key, curg),
                    ] + rest),
                    Err(e) => Err(e),
                }));
                match step {
                    Ok(rest) => {
                        assert(spec_record_fields(out0) + (seq![(fieldsm[i as int].key, curg)]
                            + rest) =~= spec_record_fields(out@) + rest);
                    },
                    Err(_) => {},
                }
            }
            i += 1;
        }
        proof {
            assert(fieldsm.skip(fieldsm.len() as int) =~= Seq::<FieldPlanV>::empty());
            assert(spec_record_fields(out@) + Seq::<(KeyV, ValueV)>::empty()
                =~= spec_record_fields(out@));
            lemma_record_view(out);
        }
        Ok(Value::Record(out))
    }
}

/// The model of an optional default value.
pub open spec fn spec_default_view(d: Option<&Value>) -> Option<ValueV> {
    match d {
        Some(v) => Some(v@),
        None => None,
    }
}

/// The group names a program with this many slots binds, slot by slot.
pub open spec fn spec_slot_names(n: usize) -> Seq<Seq<char>> {
    Seq::new(n as nat, |i: int| spec_capture_name((i + 1) as nat))
}

/// Builds the group names for a program's slots.
fn slot_names(n: usize) -> (r: Vec<String>)
    ensures
        r.deep_view() == spec_slot_names(n),
{
    let mut r: Vec<String> = Vec::new();
    let mut i: usize = 0;
    while i < n
        invariant
            i <= n,
            r@.len() == i,
            forall|k: int| 0 <= k < i ==> (#[trigger] r@[k])@ == spec_capture_name((k + 1) as nat),
        decreases n - i,
    {
        r.push(capture_name(i + 1));
        i += 1;
    }
    proof {
        crate::lemma_vec_deep_view_is(r);
        assert(r.deep_view() =~= spec_slot_names(n));
    }
    r
}

/// The outcome of running a record's parse plan on an input: an equality
/// program admits exactly its literal; a regex program matches through the
/// engine, and the captured texts feed the construction plan.
pub open spec fn spec_run_parse_struct(
    p: StructParsePlanV,
    input: Seq<char>,
    default: Option<ValueV>,
) -> Result<ValueV, ParseFailure> {
    match p.program {
        MatchProgramV::Equality(lit) => {
            if input == lit {
                spec_construct(p.construct, Seq::empty(), default)
            } else {
                Err(ParseFailure::NoMatch)
            }
        },
        MatchProgramV::Regex(frags) => match spec_regex_captures(
            crate::prog::spec_program_regex(frags),
            input,
            spec_slot_names(p.capture_count),
        ) {
            Some(caps) => spec_construct(p.construct, caps, default),
            None => Err(ParseFailure::NoMatch),
        },
    }
}

/// Runs a record's parse plan on an input.
pub fn run_parse_struct(plan: &StructParsePlan, input: &str, default: Option<&Value>) -> (r:
    Result<Value, ParseFailure>)
    requires
        plan.program.wf(),
    ensures
        match spec_run_parse_struct(plan@, input@, spec_default_view(default)) {
            Ok(v) => r matches Ok(rv) && rv@ == v,
            Err(e) => r == Err::<Value, ParseFailure>(e),
        },
{
    match &plan.program {
        crate::prog::MatchProgram::Equality(lit) => {
            if str_eq(input, lit.as_str()) {
                let empty_caps: Vec<Option<String>> = Vec::new();
                proof {
                    assert(empty_caps.deep_view() =~= Seq::<Option<Seq<char>>>::empty());
                }
                construct(&plan.construct, &empty_caps, default)
            } else {
                Err(ParseFailure::NoMatch)
            }
        },
        crate::prog::MatchProgram::Regex(prog) => {
            let names = slot_names(plan.capture_count);
            match crate::rx::regex_captures(prog.pattern.as_str(), input, &names) {
                Some(caps) => construct(&plan.construct, &caps, default),
                None => Err(ParseFailure::NoMatch),
            }
        },
    }
}

/// The first variant whose equality program is exactly the input.
pub open spec fn spec_first_eq_arm(vs: Seq<VariantPlanV>, input: Seq<char>) -> Option<int>
    decreases vs.len(),
{
    if vs.len() == 0 {
        None
    } else if vs[0].plan.program matches MatchProgramV::Equality(lit) && lit == input {
        Some(0)
    } else {
        match spec_first_eq_arm(vs.skip(1), input) {
            Some(i) => Some(i + 1),
            None => None,
        }
    }
}

/// The first variant whose regex program matches the input.
pub open spec fn spec_first_rx_arm(vs: Seq<VariantPlanV>, input: Seq<char>) -> Option<int>
    decreases vs.len(),
{
    if vs.len() == 0 {
        None
    } else if vs[0].plan.program matches MatchProgramV::Regex(frags)
        && spec_regex_captures(
        crate::prog::spec_program_regex(frags),
        input,
        spec_slot_names(vs[0].plan.capture_count),
    ) is Some {
        Some(0)
    } else {
        match spec_first_rx_arm(vs.skip(1), input) {
            Some(i) => Some(i + 1),
            None => None,
        }
    }
}

/// The outcome of union dispatch: every equality arm is tried first, in
/// declaration order, then every regex arm, in declaration order; the first
/// arm that matches decides, and its construction yields the value. The
/// result carries the index of the winning variant.
pub open spec fn spec_run_parse_enum(p: crate::plan::EnumParsePlanV, input: Seq<char>) -> Result<
    (int, ValueV),
    ParseFailure,
> {
    match spec_first_eq_arm(p.variants, input) {
        Some(i) => match spec_run_parse_struct(p.variants[i].plan, input, None) {
            Ok(v) => Ok((i, v)),
            Err(e) => Err(e),
        },
        None => match spec_first_rx_arm(p.variants, input) {
            Some(i) => match spec_run_parse_struct(p.variants[i].plan, input, None) {
                Ok(v) => Ok((i, v)),
                Err(e) => Err(e),
            },
            None => Err(ParseFailure::NoMatch),
        },
    }
}

/// Whether every program of the union's plan renders its pattern faithfully.
pub open spec fn spec_enum_plan_wf(plan: EnumParsePlan) -> bool {
    forall|i: int|
        0 <= i < plan.variants@.len() ==> (#[trigger] plan.variants@[i]).plan.program.wf()
}

/// What the first-equality-arm search means.
proof fn lemma_first_eq_arm_char(vs: Seq<VariantPlanV>, input: Seq<char>)
    ensures
        match spec_first_eq_arm(vs, input) {
            Some(i) => 0 <= i < vs.len() && (vs[i].plan.program matches MatchProgramV::Equality(
                lit,
            ) && lit == input) && (forall|j: int|
                0 <= j < i ==> !((#[trigger] vs[j].plan.program) matches
                    MatchProgramV::Equality(lit2) && lit2 == input)),
            None => forall|j: int|
                0 <= j < vs.len() ==> !((#[trigger] vs[j].plan.program) matches
                    MatchProgramV::Equality(lit2) && lit2 == input),
        },
    decreases vs.len(),
{
    if vs.len() > 0 && !(vs[0].plan.program matches MatchProgramV::Equality(lit) && lit
        == input) {
        lemma_first_eq_arm_char(vs.skip(1), input);
        assert(forall|j: int| 1 <= j < vs.len() ==> vs[j] == vs.skip(1)[j - 1]);
    }
}

/// What the first-regex-arm search means.
proof fn lemma_first_rx_arm_char(vs: Seq<VariantPlanV>, input: Seq<char>)
    ensures
        match spec_first_rx_arm(vs, input) {
            Some(i) => 0 <= i < vs.len() && (vs[i].plan.program matches MatchProgramV::Regex(
                frags,
            ) && spec_regex_captures(
                crate::prog::spec_program_regex(frags),
                input,
                spec_slot_names(vs[i].plan.capture_count),
            ) is Some) && (forall|j: int|
                0 <= j < i ==> !((#[trigger] vs[j].plan.program) matches MatchProgramV::Regex(
                    frags2,
                ) && spec_regex_captures(
                    crate::prog::spec_program_regex(frags2),
                    input,
                    spec_slot_names(vs[j].plan.capture_count),
                ) is Some)),
            None => forall|j: int|
                0 <= j < vs.len() ==> !((#[trigger] vs[j].plan.program) matches
                    MatchProgramV::Regex(frags2) && spec_regex_captures(
                    crate::prog::spec_program_regex(frags2),
                    input,
                    spec_slot_names(vs[j].plan.capture_count),
                ) is Some),
        },
    decreases vs.len(),
{
    if vs.len() > 0 && !(vs[0].plan.program matches MatchProgramV::Regex(frags)
        && spec_regex_captures(
        crate::prog::spec_program_regex(frags),
        input,
        spec_slot_names(vs[0].plan.capture_count),
    ) is Some) {
        lemma_first_rx_arm_char(vs.skip(1), input);
        assert(forall|j: int| 1 <= j < vs.len() ==> vs[j] == vs.skip(1)[j - 1]);
    }
}

/// Runs a union's parse plan on an input: declaration order decides, with
/// every equality arm ahead of every regex arm. The result carries the index
/// of the winning variant.
pub fn run_parse_enum(plan: &EnumParsePlan, input: &str) -> (r: Result<
    (usize, Value),
    ParseFailure,
>)
    requires
        spec_enum_plan_wf(*plan),
    ensures
        match spec_run_parse_enum(plan@, input@) {
            Ok((i, v)) => r matches Ok(p) && p.0 == i && p.1@ == v,
            Err(e) => r == Err::<(usize, Value), ParseFailure>(e),
        },
{
    let ghost vsm = plan@.variants;
    proof {
        crate::lemma_vec_deep_view_is(plan.variants);
        lemma_first_eq_arm_char(vsm, input@);
        lemma_first_rx_arm_char(vsm, input@);
    }
    let n = plan.variants.len();
    let mut i: usize = 0;
    while i < n
        invariant
            i <= n,
            n == plan.variants@.len(),
            vsm == plan@.variants,
            vsm.len() == n,
            forall|k: int|
                0 <= k < n ==> #[trigger] vsm[k] == plan.variants@[k].deep_view(),
            spec_enum_plan_wf(*plan),
            forall|j: int|
                0 <= j < i ==> !((#[trigger] vsm[j].plan.program) matches
                    MatchProgramV::Equality(lit2) && lit2 == input@),
        decreases n - i,
    {
        let vp = &plan.variants[i];
        if let crate::prog::MatchProgram::Equality(lit) = &vp.plan.program {
            if str_eq(input, lit.as_str()) {
                proof {
                    assert(vsm[i as int].plan.program == MatchProgramV::Equality(lit@));
                    lemma_first_eq_arm_char(vsm, input@);
                    match spec_first_eq_arm(vsm, input@) {
                        Some(ispec) => {
                            if ispec < i {
                                assert(vsm[ispec].plan.program matches MatchProgramV::Equality(
                                    l,
                                ) && l == input@);
                                assert(false);
                            } else if i < ispec {
                                assert(!((vsm[i as int].plan.program) matches
                                    MatchProgramV::Equality(l2) && l2 == input@));
                                assert(false);
                            }
                        },
                        None => {
                            assert(!((vsm[i as int].plan.program) matches
                                MatchProgramV::Equality(l2) && l2 == input@));
                            assert(false);
                        },
                    }
                    assert(spec_first_eq_arm(vsm, input@) == Some(i as int));
                }
                let empty_caps: Vec<Option<String>> = Vec::new();
                proof {
                    assert(empty_caps.deep_view() =~= Seq::<Option<Seq<char>>>::empty());
                }
                return match construct(&vp.plan.construct, &empty_caps, None) {
                    Ok(v) => Ok((i, v)),
                    Err(e) => Err(e),
                };
            }
        }
        i += 1;
    }
    proof {
        lemma_first_eq_arm_char(vsm, input@);
        assert(spec_first_eq_arm(vsm, input@) is None);
    }
    let mut i: usize = 0;
    while i < n
        invariant
            i <= n,
            n == plan.variants@.len(),
            vsm == plan@.variants,
            vsm.len() == n,
            forall|k: int|
                0 <= k < n ==> #[trigger] vsm[k] == plan.variants@[k].deep_view(),
            spec_enum_plan_wf(*plan),
            spec_first_eq_arm(vsm, input@) is None,
            forall|j: int|
                0 <= j < i ==> !((#[trigger] vsm[j].plan.program) matches
                    MatchProgramV::Regex(frags2) && spec_regex_captures(
                    crate::prog::spec_program_regex(frags2),
                    input@,
                    spec_slot_names(vsm[j].plan.capture_count),
                ) is Some),
        decreases n - i,
    {
        let vp = &plan.variants[i];
        if let crate::prog::MatchProgram::Regex(prog) = &vp.plan.program {
            let names = slot_names(vp.plan.capture_count);
            proof {
                assert(plan.variants@[i as int].plan.program.wf());
                assert(prog.pattern@ == crate::prog::spec_program_regex(
                    vsm[i as int].plan.program->Regex_0,
                ));
            }
            match crate::rx::regex_captures(prog.pattern.as_str(), input, &names) {
                Some(caps) => {
                    proof {
                        assert(vsm[i as int].plan.program matches MatchProgramV::Regex(fr)
                            && spec_regex_captures(
                            crate::prog::spec_program_regex(fr),
                            input@,
                            spec_slot_names(vsm[i as int].plan.capture_count),
                        ) is Some);
                        lemma_first_rx_arm_char(vsm, input@);
                        match spec_first_rx_arm(vsm, input@) {
                            Some(ispec) => {
                                if ispec < i {
                                    assert(vsm[ispec].plan.program matches MatchProgramV::Regex(
                                        fr2,
                                    ) && spec_regex_captures(
                                        crate::prog::spec_program_regex(fr2),
                                        input@,
                                        spec_slot_names(vsm[ispec].plan.capture_count),
                                    ) is Some);
                                    assert(false);
                                } else if i < ispec {
                                    assert(!((vsm[i as int].plan.program) matches
                                        MatchProgramV::Regex(fr2) && spec_regex_captures(
                                        crate::prog::spec_program_regex(fr2),
                                        input@,
                                        spec_slot_names(vsm[i as int].plan.capture_count),
                                    ) is Some));
                                    assert(false);
                                }
                            },
                            None => {
                                assert(!((vsm[i as int].plan.program) matches
                                    MatchProgramV::Regex(fr2) && spec_regex_captures(
                                    crate::prog::spec_program_regex(fr2),
                                    input@,
                                    spec_slot_names(vsm[i as int].plan.capture_count),
                                ) is Some));
                                assert(false);
                            },
                        }
                        assert(spec_first_rx_arm(vsm, input@) == Some(i as int));
                    }
                    return match construct(&vp.plan.construct, &caps, None) {
                        Ok(v) => Ok((i, v)),
                        Err(e) => Err(e),
                    };
                },
                None => {},
            }
        }
        i += 1;
    }
    proof {
        lemma_first_rx_arm_char(vsm, input@);
    }
    Err(ParseFailure::NoMatch)
}

/// The text a formatter plan renders from a value: literal steps verbatim,
/// value steps as the text leaf at their path; a path that misses or lands
/// on a record renders nothing. The format spec of a step is the host's to
/// apply; the text itself is what renders here.
pub open spec fn spec_run_format(steps: Seq<FormatStepV>, v: ValueV) -> Option<Seq<char>>
    decreases steps.len(),
{
    if steps.len() == 0 {
        Some(Seq::empty())
    } else {
        let piece: Option<Seq<char>> = match steps[0] {
            FormatStepV::Lit(t) => Some(t),
            FormatStepV::Value { path, .. } => match spec_get_path(v, path) {
                Some(ValueV::Text(t)) => Some(t),
                _ => None,
            },
        };
        match piece {
            None => None,
            Some(t) => match spec_run_format(steps.skip(1), v) {
                None => None,
                Some(rest) => Some(t + rest),
            },
        }
    }
}

/// Renders a value through a formatter plan.
pub fn run_format(plan: &FormatPlan, value: &Value) -> (r: Option<String>)
    ensures
        match spec_run_format(plan@.steps, value@) {
            Some(t) => r matches Some(s) && s@ == t,
            None => r is None,
        },
{
    let ghost stepsm = plan@.steps;
    let mut out = String::new();
    let mut i: usize = 0;
    proof {
        crate::lemma_vec_deep_view_is(plan.steps);
        assert(stepsm.skip(0) =~= stepsm);
    }
    while i < plan.steps.len()
        invariant
            i <= plan.steps@.len(),
            stepsm == plan@.steps,
            stepsm.len() == plan.steps@.len(),
            forall|k: int|
                0 <= k < plan.steps@.len() ==> #[trigger] stepsm[k] == plan.steps@[
                    k
                ].deep_view(),
            spec_run_format(stepsm, value@) == (match spec_run_format(
                stepsm.skip(i as int),
                value@,
            ) {
                Some(rest) => Some(out@ + rest),
                None => None,
            }),
        decreases plan.steps@.len() - i,
    {
        proof {
            assert(stepsm.skip(i as int)[0] == stepsm[i as int]);
            assert(stepsm.skip(i as int).skip(1) =~= stepsm.skip(i + 1 as int));
        }
        let ghost out0 = out@;
        match &plan.steps[i] {
            crate::fmtplan::FormatStep::Lit(t) => {
                out.append(t.as_str());
            },
            crate::fmtplan::FormatStep::Value { path, .. } => {
                proof {
                    assert(path.deep_view().skip(0) =~= path.deep_view());
                }
                match value.get_path(path, 0) {
                    Some(Value::Text(t)) => {
                        out.append(t.as_str());
                    },
                    _ => {
                        return None;
                    },
                }
            },
        }
        proof {
            match spec_run_format(stepsm.skip(i + 1 as int), value@) {
                Some(rest) => {
                    assert(out0 + (out@.subrange(out0.len() as int, out@.len() as int) + rest)
                        =~= out@ + rest);
                    assert(out@.subrange(out0.len() as int, out@.len() as int) =~= out@.skip(
                        out0.len() as int,
                    ));
                },
                None => {},
            }
        }
        i += 1;
    }
    proof {
        assert(stepsm.skip(stepsm.len() as int) =~= Seq::<FormatStepV>::empty());
        assert(out@ + Seq::<char>::empty() =~= out@);
    }
    Some(out)
}

} // verus!
