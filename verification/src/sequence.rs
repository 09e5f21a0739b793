//! The sequence expander: turning one raw captured string into an ordered
//! collection of scalars by splitting on a delimiter.

use vstd::prelude::*;
use vstd::string::StrSliceExecFns;
use crate::error::BindError;
use crate::error::BindErrorV;
use crate::error::TargetKind;
use crate::pattern::Pattern;
use crate::pattern::regex_split;
use crate::scalar::ScalarKind;
use crate::scalar::coerce_scalar;
use crate::scalar::coerce_scalar_model;
use crate::value::Value;
use crate::value::ValueV;
use crate::value::values_view;
use crate::value::lemma_values_view_push;

verus! {

/// Splitting on every occurrence of `d`: the empty string yields one empty
/// part, and each delimiter ends the part before it.
pub open spec fn split_on(s: Seq<char>, d: char) -> Seq<Seq<char>>
    decreases s.len(),
{
    if s.len() == 0 {
        seq![Seq::<char>::empty()]
    } else if s[0] == d {
        seq![Seq::<char>::empty()] + split_on(s.skip(1), d)
    } else {
        let rest = split_on(s.skip(1), d);
        seq![seq![s[0]] + rest[0]] + rest.skip(1)
    }
}

pub proof fn lemma_split_on_len(s: Seq<char>, d: char)
    ensures
        split_on(s, d).len() >= 1,
    decreases s.len(),
{
    if s.len() > 0 {
        lemma_split_on_len(s.skip(1), d);
    }
}

/// Appending a non-delimiter extends the last part; appending the delimiter
/// opens a new empty part.
pub proof fn lemma_split_on_push(s: Seq<char>, c: char, d: char)
    ensures
        split_on(s, d).len() >= 1,
        c == d ==> split_on(s.push(c), d) == split_on(s, d).push(Seq::<char>::empty()),
        c != d ==> split_on(s.push(c), d) == split_on(s, d).update(
            split_on(s, d).len() - 1,
            split_on(s, d).last().push(c),
        ),
    decreases s.len(),
{
    lemma_split_on_len(s, d);
    let t = s.push(c);
    if s.len() == 0 {
        assert(t =~= seq![c]);
        assert(t.skip(1) =~= Seq::<char>::empty());
        if c == d {
            assert(split_on(t, d) =~= split_on(s, d).push(Seq::<char>::empty()));
        } else {
            assert(seq![t[0]] + split_on(t.skip(1), d)[0] =~= Seq::<char>::empty().push(c));
            assert(split_on(t, d) =~= split_on(s, d).update(
                split_on(s, d).len() - 1,
                split_on(s, d).last().push(c),
            ));
        }
    } else {
        lemma_split_on_push(s.skip(1), c, d);
        lemma_split_on_len(s.skip(1), d);
        assert(t.skip(1) =~= s.skip(1).push(c));
        assert(t[0] == s[0]);
        if s[0] == d {
            if c == d {
                assert(split_on(t, d) =~= split_on(s, d).push(Seq::<char>::empty()));
            } else {
                assert(split_on(t, d) =~= split_on(s, d).update(
                    split_on(s, d).len() - 1,
                    split_on(s, d).last().push(c),
                ));
            }
        } else {
            let rest = split_on(s.skip(1), d);
            let rest2 = split_on(t.skip(1), d);
            if c == d {
                assert(rest2 == rest.push(Seq::<char>::empty()));
                assert(rest2[0] == rest[0]);
                assert(rest2.skip(1) =~= rest.skip(1).push(Seq::<char>::empty()));
                assert(split_on(t, d) =~= split_on(s, d).push(Seq::<char>::empty()));
            } else {
                assert(rest2 == rest.update(rest.len() - 1, rest.last().push(c)));
                if rest.len() == 1 {
                    assert(split_on(t, d) =~= split_on(s, d).update(
                        split_on(s, d).len() - 1,
                        split_on(s, d).last().push(c),
                    ));
                } else {
                    assert(rest2[0] == rest[0]);
                    assert(rest2.skip(1) =~= rest.skip(1).update(
                        rest.skip(1).len() - 1,
                        rest.skip(1).last().push(c),
                    ));
                    assert(split_on(t, d) =~= split_on(s, d).update(
                        split_on(s, d).len() - 1,
                        split_on(s, d).last().push(c),
                    ));
                }
            }
        }
    }
}

/// Splits `raw` on every comma.
pub fn split_on_comma(raw: &str) -> (r: Vec<String>)
    ensures
        r.deep_view() == split_on(raw@, ','),
{
    let n = raw.unicode_len();
    let mut out: Vec<String> = Vec::new();
    let mut start: usize = 0;
    let mut i: usize = 0;
    assert(raw@.take(0) =~= Seq::<char>::empty());
    assert(raw@.subrange(0, 0) =~= Seq::<char>::empty());
    while i < n
        invariant
            start <= i <= n,
            n == raw@.len(),
            split_on(raw@.take(i as int), ',') == out.deep_view().push(
                raw@.subrange(start as int, i as int),
            ),
        decreases n - i,
    {
        let c = raw.get_char(i);
        proof {
            assert(raw@.take(i + 1) =~= raw@.take(i as int).push(raw@[i as int]));
            lemma_split_on_push(raw@.take(i as int), raw@[i as int], ',');
        }
        if c == ',' {
            let piece = raw.substring_char(start, i).to_owned();
            out.push(piece);
            start = i + 1;
            proof {
                assert(raw@.subrange(start as int, start as int) =~= Seq::<char>::empty());
                assert(split_on(raw@.take(i + 1), ',') =~= out.deep_view().push(
                    raw@.subrange(start as int, start as int),
                ));
            }
        } else {
            proof {
                let old_parts = out.deep_view().push(raw@.subrange(start as int, i as int));
                assert(old_parts.last() == raw@.subrange(start as int, i as int));
                assert(raw@.subrange(start as int, i as int).push(raw@[i as int]) =~= raw@.subrange(
                    start as int,
                    i + 1,
                ));
                assert(split_on(raw@.take(i + 1), ',') =~= out.deep_view().push(
                    raw@.subrange(start as int, i + 1),
                ));
            }
        }
        i = i + 1;
    }
    assert(raw@.take(n as int) =~= raw@);
    let piece = raw.substring_char(start, n).to_owned();
    out.push(piece);
    assert(out.deep_view() =~= split_on(raw@, ','));
    out
}

/// The raw parts a sequence-typed field's string expands to: the empty string
/// yields no parts at all, a delimiter pattern overrides the comma default.
pub open spec fn expand_parts_model(raw: Seq<char>, delim: Option<Seq<char>>) -> Seq<Seq<char>> {
    if raw.len() == 0 {
        Seq::empty()
    } else {
        match delim {
            Option::None => split_on(raw, ','),
            Option::Some(d) => regex_split(d, raw),
        }
    }
}

/// Coercing every part in order; the first part that fails its scalar
/// coercion is returned instead.
pub open spec fn coerce_parts_model(kind: ScalarKind, parts: Seq<Seq<char>>) -> Result<
    Seq<ValueV>,
    Seq<char>,
>
    decreases parts.len(),
{
    if parts.len() == 0 {
        Result::Ok(Seq::empty())
    } else {
        match coerce_scalar_model(kind, parts[0]) {
            Option::None => Result::Err(parts[0]),
            Option::Some(v) => match coerce_parts_model(kind, parts.skip(1)) {
                Result::Err(e) => Result::Err(e),
                Result::Ok(rest) => Result::Ok(seq![v] + rest),
            },
        }
    }
}

/// The full sequence expansion of one raw string: split, then coerce each
/// part.
pub open spec fn expand_sequence_model(
    kind: ScalarKind,
    field: Seq<char>,
    raw: Seq<char>,
    delim: Option<Seq<char>>,
) -> Result<ValueV, BindErrorV> {
    match coerce_parts_model(kind, expand_parts_model(raw, delim)) {
        Result::Ok(vs) => Result::Ok(ValueV::List(vs)),
        Result::Err(bad) => Result::Err(
            BindErrorV::CoercionFailure { field, raw: bad, target: TargetKind::Scalar(kind) },
        ),
    }
}

/// Converts one raw string into an ordered collection of scalars. The default
/// delimiter is a literal comma; a field's own delimiter pattern, when given,
/// takes precedence. An empty raw string yields an empty collection, never a
/// one-element collection holding the empty string.
pub fn expand_sequence(kind: ScalarKind, field: &String, raw: &str, delim: Option<&Pattern>) -> (r:
    Result<Value, BindError>)
    ensures
        match r {
            Result::Ok(v) => expand_sequence_model(kind, field@, raw@, delim_view(delim))
                == Result::<ValueV, BindErrorV>::Ok(v@),
            Result::Err(e) => expand_sequence_model(kind, field@, raw@, delim_view(delim))
                == Result::<ValueV, BindErrorV>::Err(e@),
        },
{
    let parts: Vec<String> = if raw.unicode_len() == 0 {
        Vec::new()
    } else {
        match delim {
            Option::None => split_on_comma(raw),
            Option::Some(p) => p.split_parts(raw),
        }
    };
    proof {
        assert(parts.deep_view() =~= expand_parts_model(raw@, delim_view(delim)));
    }
    let ghost pv = parts.deep_view();
    let mut out: Vec<Value> = Vec::new();
    let mut i: usize = 0;
    assert(pv.skip(0) =~= pv);
    while i < parts.len()
        invariant
            i <= parts.len(),
            pv == parts.deep_view(),
            pv == expand_parts_model(raw@, delim_view(delim)),
            pv.len() == parts.len(),
            forall|j: int| 0 <= j < parts.len() ==> pv[j] == parts@[j]@,
            values_view(out@).len() == i as int,
            match coerce_parts_model(kind, pv.skip(i as int)) {
                Result::Ok(rest) => coerce_parts_model(kind, pv) == Result::<
                    Seq<ValueV>,
                    Seq<char>,
                >::Ok(values_view(out@) + rest),
                Result::Err(e) => coerce_parts_model(kind, pv) == Result::<
                    Seq<ValueV>,
                    Seq<char>,
                >::Err(e),
            },
        decreases parts.len() - i,
    {
        assert(pv.skip(i as int)[0] == pv[i as int]);
        match coerce_scalar(kind, parts[i].as_str()) {
            Option::None => {
                return Result::Err(
                    BindError::CoercionFailure {
                        field: field.clone(),
                        raw: parts[i].clone(),
                        target: TargetKind::Scalar(kind),
                    },
                );
            },
            Option::Some(v) => {
                proof {
                    lemma_values_view_push(out@, v);
                    assert(pv.skip(i as int).skip(1) =~= pv.skip(i + 1));
                }
                let ghost old_out = out@;
                out.push(v);
                proof {
                    assert(out@ =~= old_out.push(v));
                    if coerce_parts_model(kind, pv.skip(i + 1)) is Ok {
                        let rest = coerce_parts_model(kind, pv.skip(i + 1))->Ok_0;
                        assert(values_view(out@) + rest =~= values_view(old_out) + (seq![v@]
                            + rest));
                    }
                }
                i = i + 1;
            },
        }
    }
    assert(pv.skip(parts.len() as int) =~= Seq::<Seq<char>>::empty());
    proof {
        assert(values_view(out@) + Seq::<ValueV>::empty() =~= values_view(out@));
    }
    Result::Ok(Value::List(out))
}

/// Expanding the empty raw string yields the empty collection, for every
/// kind and every delimiter — never a one-element collection holding the
/// empty string — and a field's own delimiter pattern overrides the comma
/// default: a non-empty raw string expands to that pattern's split parts.
pub proof fn lemma_expand_empty_and_override(
    kind: ScalarKind,
    field: Seq<char>,
    raw: Seq<char>,
    delim: Seq<char>,
)
    ensures
        expand_sequence_model(kind, field, Seq::empty(), Option::Some(delim)) == Result::<
            ValueV,
            BindErrorV,
        >::Ok(ValueV::List(Seq::empty())),
        expand_sequence_model(kind, field, Seq::empty(), Option::None) == Result::<
            ValueV,
            BindErrorV,
        >::Ok(ValueV::List(Seq::empty())),
        raw.len() > 0 ==> expand_parts_model(raw, Option::Some(delim)) == regex_split(delim, raw),
{
}

/// The source text of an optional delimiter pattern.
pub open spec fn delim_view(delim: Option<&Pattern>) -> Option<Seq<char>> {
    match delim {
        Option::None => Option::None,
        Option::Some(p) => Option::Some(p@),
    }
}

} // verus!
