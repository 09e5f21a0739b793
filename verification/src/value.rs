//! The dynamic value tree a binding produces, the structured-document input
//! form, and their mathematical models.

use vstd::prelude::*;

verus! {

/// The mathematical model of a bound value: text as character sequences,
/// integers unbounded.
pub enum ValueV {
    Text(Seq<char>),
    Bool(bool),
    Char(char),
    Int(int),
    /// An optional field whose capture did not participate.
    Absent,
    List(Seq<ValueV>),
    Record(Seq<(Seq<char>, ValueV)>),
    Variant(Seq<char>, Box<ValueV>),
}

/// A bound value: what one successful binding operation produces.
///
/// Integer scalars of every supported kind are carried as `i128`, which holds
/// the full range of each.
#[derive(Debug, PartialEq)]
pub enum Value {
    Text(String),
    Bool(bool),
    Char(char),
    Int(i128),
    /// An optional field whose capture did not participate.
    Absent,
    List(Vec<Value>),
    Record(Vec<(String, Value)>),
    Variant(String, Box<Value>),
}

pub open spec fn value_view(v: Value) -> ValueV
    decreases v, 1int,
{
    match v {
        Value::Text(s) => ValueV::Text(s@),
        Value::Bool(b) => ValueV::Bool(b),
        Value::Char(c) => ValueV::Char(c),
        Value::Int(i) => ValueV::Int(i as int),
        Value::Absent => ValueV::Absent,
        Value::List(vs) => {
            proof {
                assert(decreases_to!(vs => vs@));
            }
            ValueV::List(values_view(vs@))
        },
        Value::Record(fs) => {
            proof {
                assert(decreases_to!(fs => fs@));
            }
            ValueV::Record(fields_view(fs@))
        },
        Value::Variant(name, v) => ValueV::Variant(name@, Box::new(value_view(*v))),
    }
}

pub open spec fn values_view(vs: Seq<Value>) -> Seq<ValueV>
    decreases vs, 0int,
{
    Seq::new(vs.len(), |i: int| if 0 <= i < vs.len() { value_view(vs[i]) } else { ValueV::Absent })
}

pub proof fn lemma_values_view_push(vs: Seq<Value>, v: Value)
    ensures
        values_view(vs.push(v)) == values_view(vs).push(value_view(v)),
{
    assert(values_view(vs.push(v)) =~= values_view(vs).push(value_view(v)));
}

pub open spec fn fields_view(fs: Seq<(String, Value)>) -> Seq<(Seq<char>, ValueV)>
    decreases fs, 0int,
{
    Seq::new(
        fs.len(),
        |i: int|
            if 0 <= i < fs.len() {
                (fs[i].0@, value_view(fs[i].1))
            } else {
                (Seq::empty(), ValueV::Absent)
            },
    )
}

impl View for Value {
    type V = ValueV;

    open spec fn view(&self) -> ValueV {
        value_view(*self)
    }
}

pub open spec fn opt_value_view(o: Option<Value>) -> Option<ValueV> {
    match o {
        Option::None => Option::None,
        Option::Some(v) => Option::Some(v@),
    }
}

/// The mathematical model of a structured input document.
pub enum StructuredV {
    Text(Seq<char>),
    Bool(bool),
    Int(int),
    List(Seq<StructuredV>),
    Object(Seq<(Seq<char>, StructuredV)>),
}

/// An already-decomposed input document, the alternative to a flat line of
/// text: records can be bound directly from its field mapping, with no
/// pattern matching involved.
#[derive(Debug, PartialEq)]
pub enum Structured {
    Text(String),
    Bool(bool),
    Int(i128),
    List(Vec<Structured>),
    Object(Vec<(String, Structured)>),
}

pub open spec fn structured_view(v: Structured) -> StructuredV
    decreases v, 1int,
{
    match v {
        Structured::Text(s) => StructuredV::Text(s@),
        Structured::Bool(b) => StructuredV::Bool(b),
        Structured::Int(i) => StructuredV::Int(i as int),
        Structured::List(vs) => {
            proof {
                assert(decreases_to!(vs => vs@));
            }
            StructuredV::List(structured_list_view(vs@))
        },
        Structured::Object(fs) => {
            proof {
                assert(decreases_to!(fs => fs@));
            }
            StructuredV::Object(structured_object_view(fs@))
        },
    }
}

pub open spec fn structured_list_view(vs: Seq<Structured>) -> Seq<StructuredV>
    decreases vs, 0int,
{
    Seq::new(
        vs.len(),
        |i: int|
            if 0 <= i < vs.len() {
                structured_view(vs[i])
            } else {
                StructuredV::Bool(false)
            },
    )
}

pub open spec fn structured_object_view(fs: Seq<(String, Structured)>) -> Seq<(Seq<char>, StructuredV)>
    decreases fs, 0int,
{
    Seq::new(
        fs.len(),
        |i: int|
            if 0 <= i < fs.len() {
                (fs[i].0@, structured_view(fs[i].1))
            } else {
                (Seq::empty(), StructuredV::Bool(false))
            },
    )
}

impl View for Structured {
    type V = StructuredV;

    open spec fn view(&self) -> StructuredV {
        structured_view(*self)
    }
}

/// A deep copy: the copy's model equals the source value's.
#[verifier::loop_isolation(false)]
pub fn clone_value(v: &Value) -> (r: Value)
    ensures
        r@ == v@,
    decreases v,
{
    match v {
        Value::Text(s) => Value::Text(s.clone()),
        Value::Bool(b) => Value::Bool(*b),
        Value::Char(c) => Value::Char(*c),
        Value::Int(i) => Value::Int(*i),
        Value::Absent => Value::Absent,
        Value::List(vs) => {
            let mut out: Vec<Value> = Vec::new();
            let mut i: usize = 0;
            while i < vs.len()
                invariant
                    i <= vs.len(),
                    out@.len() == i as int,
                    forall|j: int| 0 <= j < i ==> out@[j]@ == vs@[j]@,
                decreases vs.len() - i,
            {
                proof {
                    assert(decreases_to!(vs => vs@));
                    assert(decreases_to!(vs@ => vs@[i as int]));
                }
                let e = clone_value(&vs[i]);
                out.push(e);
                i = i + 1;
            }
            let r = Value::List(out);
            assert(values_view(out@) =~= values_view(vs@));
            r
        },
        Value::Record(fs) => {
            let mut out: Vec<(String, Value)> = Vec::new();
            let mut i: usize = 0;
            while i < fs.len()
                invariant
                    i <= fs.len(),
                    out@.len() == i as int,
                    forall|j: int| 0 <= j < i ==> out@[j].0@ == fs@[j].0@ && out@[j].1@ == fs@[j].1@,
                decreases fs.len() - i,
            {
                proof {
                    assert(decreases_to!(fs => fs@));
                    assert(decreases_to!(fs@ => fs@[i as int]));
                    assert(decreases_to!(fs@[i as int] => fs@[i as int].1));
                }
                let name = fs[i].0.clone();
                let e = clone_value(&fs[i].1);
                out.push((name, e));
                i = i + 1;
            }
            let r = Value::Record(out);
            assert(fields_view(out@) =~= fields_view(fs@));
            r
        },
        Value::Variant(name, inner) => Value::Variant(name.clone(), Box::new(clone_value(inner))),
    }
}

} // verus!
