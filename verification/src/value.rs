//! The value model: a closed tagged union for a single cell's value.
//!
//! The remote store's schema-less attribute encoding is modelled by
//! [`RemoteValue`], holding as plain data exactly what conversion reads.
//! Conversion into the local [`ItemValue`] union is total over the
//! recognized variants; an unrecognized variant is a conversion error,
//! never silently dropped. Rendering a cell as text reproduces a scalar's
//! canonical form: integers as base-10 digits, booleans as `true`/`false`,
//! null as the fixed literal `null`, strings verbatim.

use crate::numeric::{dec_str_int, i64_to_dec, parse_i64, parse_or_zero};
use vstd::prelude::*;

verus! {

/// A single cell's value. Nested collections keep their order: a dictionary
/// is an ordered sequence of name/value pairs, in insertion order from the
/// source record.
#[derive(Debug)]
pub enum ItemValue {
    Null,
    Text(String),
    Number(i64),
    Bool(bool),
    Dict(Vec<(String, ItemValue)>),
    List(Vec<ItemValue>),
}

/// A remote attribute value, as plain data: a boolean, a numeric string, a
/// string, a null marker, a list, an ordered name/value mapping, or any
/// variant this model does not recognize.
#[derive(Debug)]
pub enum RemoteValue {
    Bool(bool),
    N(String),
    S(String),
    Null(bool),
    L(Vec<RemoteValue>),
    M(Vec<(String, RemoteValue)>),
    Other,
}

/// Mathematical model of an [`ItemValue`].
pub enum ValueView {
    Null,
    Text(Seq<char>),
    Number(int),
    Bool(bool),
    Dict(Seq<(Seq<char>, ValueView)>),
    List(Seq<ValueView>),
}

/// Mathematical model of a [`RemoteValue`].
pub enum RemoteValueView {
    Bool(bool),
    N(Seq<char>),
    S(Seq<char>),
    Null(bool),
    L(Seq<RemoteValueView>),
    M(Seq<(Seq<char>, RemoteValueView)>),
    Other,
}

pub open spec fn iv_view(v: ItemValue) -> ValueView
    decreases v,
{
    match v {
        ItemValue::Null => ValueView::Null,
        ItemValue::Text(s) => ValueView::Text(s@),
        ItemValue::Number(n) => ValueView::Number(n as int),
        ItemValue::Bool(b) => ValueView::Bool(b),
        ItemValue::Dict(m) => ValueView::Dict(iv_kv_views(m@)),
        ItemValue::List(l) => ValueView::List(iv_views(l@)),
    }
}

/// The views of a sequence of values, elementwise.
pub open spec fn iv_views(l: Seq<ItemValue>) -> Seq<ValueView>
    decreases l,
{
    if l.len() == 0 {
        Seq::empty()
    } else {
        seq![iv_view(l.first())] + iv_views(l.drop_first())
    }
}

/// The views of a sequence of name/value pairs, elementwise.
pub open spec fn iv_kv_views(m: Seq<(String, ItemValue)>) -> Seq<(Seq<char>, ValueView)>
    decreases m,
{
    if m.len() == 0 {
        Seq::empty()
    } else {
        seq![(m.first().0@, iv_view(m.first().1))] + iv_kv_views(m.drop_first())
    }
}

impl View for ItemValue {
    type V = ValueView;

    open spec fn view(&self) -> ValueView {
        iv_view(*self)
    }
}

pub open spec fn rv_view(r: RemoteValue) -> RemoteValueView
    decreases r,
{
    match r {
        RemoteValue::Bool(b) => RemoteValueView::Bool(b),
        RemoteValue::N(s) => RemoteValueView::N(s@),
        RemoteValue::S(s) => RemoteValueView::S(s@),
        RemoteValue::Null(z) => RemoteValueView::Null(z),
        RemoteValue::L(l) => RemoteValueView::L(rv_views(l@)),
        RemoteValue::M(m) => RemoteValueView::M(rv_kv_views(m@)),
        RemoteValue::Other => RemoteValueView::Other,
    }
}

/// The views of a sequence of remote values, elementwise.
pub open spec fn rv_views(l: Seq<RemoteValue>) -> Seq<RemoteValueView>
    decreases l,
{
    if l.len() == 0 {
        Seq::empty()
    } else {
        seq![rv_view(l.first())] + rv_views(l.drop_first())
    }
}

/// The views of a sequence of remote name/value pairs, elementwise.
pub open spec fn rv_kv_views(m: Seq<(String, RemoteValue)>) -> Seq<(Seq<char>, RemoteValueView)>
    decreases m,
{
    if m.len() == 0 {
        Seq::empty()
    } else {
        seq![(m.first().0@, rv_view(m.first().1))] + rv_kv_views(m.drop_first())
    }
}

impl View for RemoteValue {
    type V = RemoteValueView;

    open spec fn view(&self) -> RemoteValueView {
        rv_view(*self)
    }
}

/// Elementwise reading of `iv_views`.
pub broadcast proof fn lemma_iv_views_char(l: Seq<ItemValue>)
    ensures
        (#[trigger] iv_views(l)).len() == l.len(),
        forall|i: int| 0 <= i < l.len() ==> iv_views(l)[i] == iv_view(#[trigger] l[i]),
    decreases l.len(),
{
    if l.len() > 0 {
        lemma_iv_views_char(l.drop_first());
        assert forall|i: int| 0 <= i < l.len() implies iv_views(l)[i] == iv_view(l[i]) by {
            if i == 0 {
                assert(iv_views(l)[0] == iv_view(l.first()));
            } else {
                assert(iv_views(l)[i] == iv_views(l.drop_first())[i - 1]);
                assert(l.drop_first()[i - 1] == l[i]);
            }
        }
    }
}

/// Elementwise reading of `iv_kv_views`.
pub broadcast proof fn lemma_iv_kv_views_char(m: Seq<(String, ItemValue)>)
    ensures
        (#[trigger] iv_kv_views(m)).len() == m.len(),
        forall|i: int|
            0 <= i < m.len() ==> iv_kv_views(m)[i] == ((#[trigger] m[i]).0@, iv_view(m[i].1)),
    decreases m.len(),
{
    if m.len() > 0 {
        lemma_iv_kv_views_char(m.drop_first());
        assert forall|i: int|
            0 <= i < m.len() implies iv_kv_views(m)[i] == (m[i].0@, iv_view(m[i].1)) by {
            if i == 0 {
                assert(iv_kv_views(m)[0] == (m.first().0@, iv_view(m.first().1)));
            } else {
                assert(iv_kv_views(m)[i] == iv_kv_views(m.drop_first())[i - 1]);
                assert(m.drop_first()[i - 1] == m[i]);
            }
        }
    }
}

/// Elementwise reading of `rv_views`.
pub broadcast proof fn lemma_rv_views_char(l: Seq<RemoteValue>)
    ensures
        (#[trigger] rv_views(l)).len() == l.len(),
        forall|i: int| 0 <= i < l.len() ==> rv_views(l)[i] == rv_view(#[trigger] l[i]),
    decreases l.len(),
{
    if l.len() > 0 {
        lemma_rv_views_char(l.drop_first());
        assert forall|i: int| 0 <= i < l.len() implies rv_views(l)[i] == rv_view(l[i]) by {
            if i == 0 {
                assert(rv_views(l)[0] == rv_view(l.first()));
            } else {
                assert(rv_views(l)[i] == rv_views(l.drop_first())[i - 1]);
                assert(l.drop_first()[i - 1] == l[i]);
            }
        }
    }
}

/// Elementwise reading of `rv_kv_views`.
pub broadcast proof fn lemma_rv_kv_views_char(m: Seq<(String, RemoteValue)>)
    ensures
        (#[trigger] rv_kv_views(m)).len() == m.len(),
        forall|i: int|
            0 <= i < m.len() ==> rv_kv_views(m)[i] == ((#[trigger] m[i]).0@, rv_view(m[i].1)),
    decreases m.len(),
{
    if m.len() > 0 {
        lemma_rv_kv_views_char(m.drop_first());
        assert forall|i: int|
            0 <= i < m.len() implies rv_kv_views(m)[i] == (m[i].0@, rv_view(m[i].1)) by {
            if i == 0 {
                assert(rv_kv_views(m)[0] == (m.first().0@, rv_view(m.first().1)));
            } else {
                assert(rv_kv_views(m)[i] == rv_kv_views(m.drop_first())[i - 1]);
                assert(m.drop_first()[i - 1] == m[i]);
            }
        }
    }
}

/// Failed conversion: the remote value held a variant this model does not
/// recognize.
#[derive(Clone, Copy, Debug, PartialEq, Eq, Structural)]
pub enum ConvertError {
    UnrecognizedVariant,
}

/// What conversion yields: every recognized remote value maps to exactly one
/// local value; a value holding an unrecognized variant anywhere maps to
/// nothing. A numeric string that does not parse as an `i64` yields zero.
pub open spec fn convert_view(r: RemoteValueView) -> Option<ValueView>
    decreases r,
{
    match r {
        RemoteValueView::Bool(b) => Some(ValueView::Bool(b)),
        RemoteValueView::N(s) => Some(ValueView::Number(parse_or_zero(s))),
        RemoteValueView::S(s) => Some(ValueView::Text(s)),
        RemoteValueView::Null(_) => Some(ValueView::Null),
        RemoteValueView::L(l) => match convert_views(l) {
            Some(vs) => Some(ValueView::List(vs)),
            None => None,
        },
        RemoteValueView::M(m) => match convert_kv_views(m) {
            Some(ps) => Some(ValueView::Dict(ps)),
            None => None,
        },
        RemoteValueView::Other => None,
    }
}

/// Elementwise conversion of a sequence of remote value views: all succeed
/// or the whole sequence fails.
pub open spec fn convert_views(l: Seq<RemoteValueView>) -> Option<Seq<ValueView>>
    decreases l,
{
    if l.len() == 0 {
        Some(Seq::empty())
    } else {
        match (convert_view(l.first()), convert_views(l.drop_first())) {
            (Some(v), Some(vs)) => Some(seq![v] + vs),
            _ => None,
        }
    }
}

/// Elementwise conversion of remote name/value pairs: names pass through,
/// all values succeed or the whole sequence fails.
pub open spec fn convert_kv_views(m: Seq<(Seq<char>, RemoteValueView)>) -> Option<
    Seq<(Seq<char>, ValueView)>,
>
    decreases m,
{
    if m.len() == 0 {
        Some(Seq::empty())
    } else {
        match (convert_view(m.first().1), convert_kv_views(m.drop_first())) {
            (Some(v), Some(ps)) => Some(seq![(m.first().0, v)] + ps),
            _ => None,
        }
    }
}

/// Elementwise reading of `convert_views`: it succeeds exactly when every
/// element converts, and then holds the converted elements in order.
pub proof fn lemma_convert_views_char(l: Seq<RemoteValueView>)
    ensures
        convert_views(l) is Some <==> (forall|i: int|
            0 <= i < l.len() ==> (#[trigger] convert_view(l[i])) is Some),
        convert_views(l) is Some ==> convert_views(l).unwrap().len() == l.len(),
        convert_views(l) is Some ==> forall|i: int|
            0 <= i < l.len() ==> convert_views(l).unwrap()[i] == (#[trigger] convert_view(
                l[i],
            )).unwrap(),
    decreases l.len(),
{
    if l.len() == 0 {
    } else {
        let rest = l.drop_first();
        lemma_convert_views_char(rest);
        assert(l.first() == l[0]);
        assert(forall|j: int| 0 <= j < rest.len() ==> #[trigger] rest[j] == l[j + 1]);
        if convert_view(l[0]) is Some && convert_views(rest) is Some {
            let v = convert_view(l[0]).unwrap();
            let vs = convert_views(rest).unwrap();
            assert(convert_views(l) == Some(seq![v] + vs));
            assert forall|i: int| 0 <= i < l.len() implies (#[trigger] convert_view(l[i]))
                is Some by {
                if i > 0 {
                    assert(convert_view(rest[i - 1]) is Some);
                }
            }
            assert forall|i: int|
                0 <= i < l.len() implies convert_views(l).unwrap()[i] == (#[trigger] convert_view(
                l[i],
            )).unwrap() by {
                if i == 0 {
                    assert((seq![v] + vs)[0] == v);
                } else {
                    assert((seq![v] + vs)[i] == vs[i - 1]);
                    assert(convert_view(rest[i - 1]) is Some);
                }
            }
        } else {
            assert(convert_views(l) is None);
            if convert_view(l[0]) is Some {
                assert(!(forall|j: int|
                    0 <= j < rest.len() ==> (#[trigger] convert_view(rest[j])) is Some));
                let j = choose|j: int|
                    0 <= j < rest.len() && !((#[trigger] convert_view(rest[j])) is Some);
                assert(convert_view(l[j + 1]) == convert_view(rest[j]));
            }
        }
    }
}

/// Elementwise reading of `convert_kv_views`.
pub proof fn lemma_convert_kv_views_char(m: Seq<(Seq<char>, RemoteValueView)>)
    ensures
        convert_kv_views(m) is Some <==> (forall|i: int|
            0 <= i < m.len() ==> (#[trigger] convert_view(m[i].1)) is Some),
        convert_kv_views(m) is Some ==> convert_kv_views(m).unwrap().len() == m.len(),
        convert_kv_views(m) is Some ==> forall|i: int|
            0 <= i < m.len() ==> convert_kv_views(m).unwrap()[i] == (
            (#[trigger] m[i]).0,
            convert_view(m[i].1).unwrap(),
        ),
    decreases m.len(),
{
    if m.len() == 0 {
    } else {
        let rest = m.drop_first();
        lemma_convert_kv_views_char(rest);
        assert(m.first() == m[0]);
        assert(forall|j: int| 0 <= j < rest.len() ==> #[trigger] rest[j] == m[j + 1]);
        if convert_view(m[0].1) is Some && convert_kv_views(rest) is Some {
            let v = convert_view(m[0].1).unwrap();
            let ps = convert_kv_views(rest).unwrap();
            assert(convert_kv_views(m) == Some(seq![(m[0].0, v)] + ps));
            assert forall|i: int| 0 <= i < m.len() implies (#[trigger] convert_view(m[i].1))
                is Some by {
                if i > 0 {
                    assert(convert_view(rest[i - 1].1) is Some);
                }
            }
            assert forall|i: int|
                0 <= i < m.len() implies convert_kv_views(m).unwrap()[i] == (
                (#[trigger] m[i]).0,
                convert_view(m[i].1).unwrap(),
            ) by {
                if i == 0 {
                    assert((seq![(m[0].0, v)] + ps)[0] == (m[0].0, v));
                } else {
                    assert((seq![(m[0].0, v)] + ps)[i] == ps[i - 1]);
                    assert(convert_view(rest[i - 1].1) is Some);
                }
            }
        } else {
            assert(convert_kv_views(m) is None);
            if convert_view(m[0].1) is Some {
                assert(!(forall|j: int|
                    0 <= j < rest.len() ==> (#[trigger] convert_view(rest[j].1)) is Some));
                let j = choose|j: int|
                    0 <= j < rest.len() && !((#[trigger] convert_view(rest[j].1)) is Some);
                assert(convert_view(m[j + 1].1) == convert_view(rest[j].1));
            }
        }
    }
}

/// Convert a remote attribute value into the local value model, exactly as
/// `convert_view` describes: total over recognized variants, an error as
/// soon as any nested variant is unrecognized.
pub fn convert(r: &RemoteValue) -> (res: Result<ItemValue, ConvertError>)
    ensures
        match res {
            Ok(v) => convert_view(r@) == Some(v@),
            Err(_) => convert_view(r@) is None,
        },
    decreases *r,
{
    match r {
        RemoteValue::Bool(b) => Ok(ItemValue::Bool(*b)),
        RemoteValue::N(s) => {
            let n: i64 = match parse_i64(s.as_str()) {
                Some(n) => n,
                None => 0,
            };
            Ok(ItemValue::Number(n))
        },
        RemoteValue::S(s) => Ok(ItemValue::Text(s.clone())),
        RemoteValue::Null(_) => Ok(ItemValue::Null),
        RemoteValue::L(l) => {
            let mut out: Vec<ItemValue> = Vec::new();
            let mut i: usize = 0;
            while i < l.len()
                invariant
                    *r == RemoteValue::L(*l),
                    0 <= i <= l.len(),
                    out.len() == i,
                    forall|j: int|
                        0 <= j < i ==> convert_view(rv_view(l@[j])) == Some(
                            iv_view(#[trigger] out@[j]),
                        ),
                decreases l.len() - i,
            {
                proof {
                    assert(decreases_to!(*r => l@[i as int])) by {
                        assert((*r)->L_0 == *l);
                        assert(decreases_to!(*r => (*r)->L_0));
                        assert(decreases_to!(*l => l@));
                        assert(decreases_to!(l@ => l@[i as int]));
                    }
                }
                match convert(&l[i]) {
                    Ok(v) => {
                        out.push(v);
                    },
                    Err(e) => {
                        proof {
                            let lv = rv_views(l@);
                            lemma_rv_views_char(l@);
                            lemma_convert_views_char(lv);
                            assert(convert_view(lv[i as int]) is None);
                            assert(!(forall|k: int|
                                0 <= k < lv.len() ==> (#[trigger] convert_view(lv[k])) is Some));
                            assert(r@ == RemoteValueView::L(lv));
                        }
                        return Err(e);
                    },
                }
                i += 1;
            }
            proof {
                let lv = rv_views(l@);
                lemma_rv_views_char(l@);
                lemma_convert_views_char(lv);
                lemma_iv_views_char(out@);
                assert forall|k: int| 0 <= k < lv.len() implies (#[trigger] convert_view(lv[k]))
                    == Some(iv_view(out@[k])) by {
                    assert(convert_view(rv_view(l@[k])) == Some(iv_view(out@[k])));
                }
                assert(forall|k: int|
                    0 <= k < lv.len() ==> (#[trigger] convert_view(lv[k])) is Some);
                assert forall|k: int|
                    0 <= k < lv.len() implies convert_views(lv).unwrap()[k] == iv_views(
                    out@,
                )[k] by {
                    assert(convert_view(rv_view(l@[k])) == Some(iv_view(out@[k])));
                }
                assert(convert_views(lv).unwrap() =~= iv_views(out@));
                assert(r@ == RemoteValueView::L(lv));
            }
            Ok(ItemValue::List(out))
        },
        RemoteValue::M(m) => {
            let mut out: Vec<(String, ItemValue)> = Vec::new();
            let mut i: usize = 0;
            while i < m.len()
                invariant
                    *r == RemoteValue::M(*m),
                    0 <= i <= m.len(),
                    out.len() == i,
                    forall|j: int| 0 <= j < i ==> (#[trigger] out@[j]).0@ == m@[j].0@,
                    forall|j: int|
                        0 <= j < i ==> convert_view(rv_view(m@[j].1)) == Some(
                            iv_view((#[trigger] out@[j]).1),
                        ),
                decreases m.len() - i,
            {
                let key = m[i].0.clone();
                proof {
                    assert(decreases_to!(*r => m@[i as int].1)) by {
                        assert((*r)->M_0 == *m);
                        assert(decreases_to!(*r => (*r)->M_0));
                        assert(decreases_to!(*m => m@));
                        assert(decreases_to!(m@ => m@[i as int]));
                        assert(decreases_to!(m@[i as int] => m@[i as int].1));
                    }
                }
                match convert(&m[i].1) {
                    Ok(v) => {
                        out.push((key, v));
                    },
                    Err(e) => {
                        proof {
                            let mv = rv_kv_views(m@);
                            lemma_rv_kv_views_char(m@);
                            lemma_convert_kv_views_char(mv);
                            assert(convert_view(mv[i as int].1) is None);
                            assert(!(forall|k: int|
                                0 <= k < mv.len() ==> (#[trigger] convert_view(mv[k].1))
                                    is Some));
                            assert(r@ == RemoteValueView::M(mv));
                        }
                        return Err(e);
                    },
                }
                i += 1;
            }
            proof {
                let mv = rv_kv_views(m@);
                lemma_rv_kv_views_char(m@);
                lemma_convert_kv_views_char(mv);
                lemma_iv_kv_views_char(out@);
                assert forall|k: int| 0 <= k < mv.len() implies (#[trigger] convert_view(mv[k].1))
                    == Some(iv_view(out@[k].1)) by {
                    assert(convert_view(rv_view(m@[k].1)) == Some(iv_view(out@[k].1)));
                }
                assert forall|k: int|
                    0 <= k < mv.len() implies convert_kv_views(mv).unwrap()[k] == iv_kv_views(
                    out@,
                )[k] by {
                    assert(convert_view(rv_view(m@[k].1)) == Some(iv_view(out@[k].1)));
                    assert(mv[k].0 == m@[k].0@);
                    assert(out@[k].0@ == m@[k].0@);
                }
                assert(convert_kv_views(mv).unwrap() =~= iv_kv_views(out@));
                assert(r@ == RemoteValueView::M(mv));
            }
            Ok(ItemValue::Dict(out))
        },
        RemoteValue::Other => Err(ConvertError::UnrecognizedVariant),
    }
}

/// The text shown for a cell value: scalars in canonical form, collections
/// as fixed placeholders.
pub open spec fn render_view(v: ValueView) -> Seq<char> {
    match v {
        ValueView::Null => "null"@,
        ValueView::Text(s) => s,
        ValueView::Number(n) => dec_str_int(n),
        ValueView::Bool(b) => if b {
            "true"@
        } else {
            "false"@
        },
        ValueView::Dict(_) => "Map..."@,
        ValueView::List(_) => "List"@,
    }
}

/// Render a cell value as text, exactly as `render_view` describes.
pub fn render_text(v: &ItemValue) -> (r: String)
    ensures
        r@ == render_view(v@),
{
    match v {
        ItemValue::Null => "null".to_owned(),
        ItemValue::Text(s) => s.clone(),
        ItemValue::Number(n) => i64_to_dec(*n),
        ItemValue::Bool(b) => if *b {
            "true".to_owned()
        } else {
            "false".to_owned()
        },
        ItemValue::Dict(_) => "Map...".to_owned(),
        ItemValue::List(_) => "List".to_owned(),
    }
}


/// Nesting depth of a remote value: scalars at zero, a collection one
/// above its deepest element.
pub open spec fn rv_depth(r: RemoteValueView) -> nat
    decreases r,
{
    match r {
        RemoteValueView::L(l) => 1 + rvs_depth(l),
        RemoteValueView::M(m) => 1 + rv_kvs_depth(m),
        _ => 0,
    }
}

/// The deepest nesting depth among a sequence of remote values.
pub open spec fn rvs_depth(l: Seq<RemoteValueView>) -> nat
    decreases l,
{
    if l.len() == 0 {
        0
    } else {
        let d0 = rv_depth(l.first());
        let dr = rvs_depth(l.drop_first());
        if d0 >= dr {
            d0
        } else {
            dr
        }
    }
}

/// The deepest nesting depth among remote name/value pairs.
pub open spec fn rv_kvs_depth(m: Seq<(Seq<char>, RemoteValueView)>) -> nat
    decreases m,
{
    if m.len() == 0 {
        0
    } else {
        let d0 = rv_depth(m.first().1);
        let dr = rv_kvs_depth(m.drop_first());
        if d0 >= dr {
            d0
        } else {
            dr
        }
    }
}

/// Nesting depth of a local value: scalars at zero, a collection one
/// above its deepest element.
pub open spec fn vv_depth(v: ValueView) -> nat
    decreases v,
{
    match v {
        ValueView::List(l) => 1 + vvs_depth(l),
        ValueView::Dict(m) => 1 + vv_kvs_depth(m),
        _ => 0,
    }
}

/// The deepest nesting depth among a sequence of local values.
pub open spec fn vvs_depth(l: Seq<ValueView>) -> nat
    decreases l,
{
    if l.len() == 0 {
        0
    } else {
        let d0 = vv_depth(l.first());
        let dr = vvs_depth(l.drop_first());
        if d0 >= dr {
            d0
        } else {
            dr
        }
    }
}

/// The deepest nesting depth among local name/value pairs.
pub open spec fn vv_kvs_depth(m: Seq<(Seq<char>, ValueView)>) -> nat
    decreases m,
{
    if m.len() == 0 {
        0
    } else {
        let d0 = vv_depth(m.first().1);
        let dr = vv_kvs_depth(m.drop_first());
        if d0 >= dr {
            d0
        } else {
            dr
        }
    }
}

/// Conversion is depth-preserving: a remote value nested at depth `d`
/// converts to a local value nested at depth `d`.
pub proof fn lemma_convert_depth(r: RemoteValueView)
    requires
        convert_view(r) is Some,
    ensures
        vv_depth(convert_view(r).unwrap()) == rv_depth(r),
    decreases r,
{
    match r {
        RemoteValueView::L(l) => {
            lemma_convert_seq_depth(l);
        },
        RemoteValueView::M(m) => {
            lemma_convert_kvs_depth(m);
        },
        _ => {},
    }
}

proof fn lemma_convert_seq_depth(l: Seq<RemoteValueView>)
    requires
        convert_views(l) is Some,
    ensures
        vvs_depth(convert_views(l).unwrap()) == rvs_depth(l),
    decreases l,
{
    if l.len() == 0 {
        assert(convert_views(l).unwrap() =~= Seq::<ValueView>::empty());
    } else {
        lemma_convert_depth(l.first());
        lemma_convert_seq_depth(l.drop_first());
        let v = convert_view(l.first()).unwrap();
        let vs = convert_views(l.drop_first()).unwrap();
        let out = seq![v] + vs;
        assert(convert_views(l).unwrap() == out);
        assert(out.len() > 0);
        assert(out.first() == v);
        assert(out.drop_first() =~= vs);
    }
}

proof fn lemma_convert_kvs_depth(m: Seq<(Seq<char>, RemoteValueView)>)
    requires
        convert_kv_views(m) is Some,
    ensures
        vv_kvs_depth(convert_kv_views(m).unwrap()) == rv_kvs_depth(m),
    decreases m,
{
    if m.len() == 0 {
        assert(convert_kv_views(m).unwrap() =~= Seq::<(Seq<char>, ValueView)>::empty());
    } else {
        lemma_convert_depth(m.first().1);
        lemma_convert_kvs_depth(m.drop_first());
        let v = convert_view(m.first().1).unwrap();
        let ps = convert_kv_views(m.drop_first()).unwrap();
        let out = seq![(m.first().0, v)] + ps;
        assert(convert_kv_views(m).unwrap() == out);
        assert(out.len() > 0);
        assert(out.first() == (m.first().0, v));
        assert(out.drop_first() =~= ps);
    }
}

/// Conversion round trip for scalar remote values: converting a scalar and
/// rendering the result reproduces the scalar's canonical text form. A
/// numeric attribute holding the canonical text of `n` converts to `n` and
/// renders back to that same text; booleans render as `true`/`false`, null
/// as the fixed literal, strings verbatim.
pub proof fn lemma_scalar_round_trip(n: int, s: Seq<char>, b: bool, z: bool)
    requires
        i64::MIN <= n <= i64::MAX,
    ensures
        convert_view(RemoteValueView::N(dec_str_int(n))) == Some(ValueView::Number(n)),
        render_view(ValueView::Number(n)) == dec_str_int(n),
        convert_view(RemoteValueView::S(s)) == Some(ValueView::Text(s)),
        render_view(ValueView::Text(s)) == s,
        convert_view(RemoteValueView::Bool(b)) == Some(ValueView::Bool(b)),
        render_view(ValueView::Bool(b)) == (if b {
            "true"@
        } else {
            "false"@
        }),
        convert_view(RemoteValueView::Null(z)) == Some(ValueView::Null),
        render_view(ValueView::Null) == "null"@,
{
    crate::numeric::lemma_parse_canonical(n);
}

} // verus!
