//! Converting the literals of an instance file into values of a number type.
use vstd::prelude::*;

use crate::numeric::FloatLiteral;
use crate::vrplib::parser::rows_view;

verus! {

/// `dst` holds, for each literal of `src`, a value that `value` may return
/// for it.
pub open spec fn is_converted<T, V: Fn(&FloatLiteral) -> T>(
    src: Seq<FloatLiteral>,
    dst: Seq<T>,
    value: V,
) -> bool {
    &&& dst.len() == src.len()
    &&& forall|i: int| 0 <= i < src.len() ==> call_ensures(value, (&src[i],), #[trigger] dst[i])
}

/// `dst` holds, for each pair of literals of `src`, a pair of values that
/// `value` may return for them.
pub open spec fn is_converted_pairs<T, V: Fn(&FloatLiteral) -> T>(
    src: Seq<(FloatLiteral, FloatLiteral)>,
    dst: Seq<(T, T)>,
    value: V,
) -> bool {
    &&& dst.len() == src.len()
    &&& forall|i: int|
        0 <= i < src.len() ==> call_ensures(value, (&src[i].0,), (#[trigger] dst[i]).0)
            && call_ensures(value, (&src[i].1,), dst[i].1)
}

/// Converts each literal of `src` by `value`.
pub fn convert_all<T, V: Fn(&FloatLiteral) -> T>(src: &Vec<FloatLiteral>, value: &V) -> (r: Vec<T>)
    requires
        forall|l: &FloatLiteral| value.requires((l,)),
    ensures
        is_converted(src@, r@, *value),
{
    let mut out: Vec<T> = Vec::new();
    let mut i: usize = 0;
    while i < src.len()
        invariant
            forall|l: &FloatLiteral| value.requires((l,)),
            i <= src@.len(),
            out@.len() == i,
            forall|k: int| 0 <= k < i ==> call_ensures(*value, (&src@[k],), #[trigger] out@[k]),
        decreases src@.len() - i,
    {
        out.push(value(&src[i]));
        i = i + 1;
    }
    out
}

/// Converts each pair of literals of `src` by `value`.
pub fn convert_pairs<T, V: Fn(&FloatLiteral) -> T>(
    src: &Vec<(FloatLiteral, FloatLiteral)>,
    value: &V,
) -> (r: Vec<(T, T)>)
    requires
        forall|l: &FloatLiteral| value.requires((l,)),
    ensures
        is_converted_pairs(src@, r@, *value),
{
    let mut out: Vec<(T, T)> = Vec::new();
    let mut i: usize = 0;
    while i < src.len()
        invariant
            forall|l: &FloatLiteral| value.requires((l,)),
            i <= src@.len(),
            out@.len() == i,
            forall|k: int|
                0 <= k < i ==> call_ensures(*value, (&src@[k].0,), (#[trigger] out@[k]).0)
                    && call_ensures(*value, (&src@[k].1,), out@[k].1),
        decreases src@.len() - i,
    {
        let a = value(&src[i].0);
        let b = value(&src[i].1);
        out.push((a, b));
        i = i + 1;
    }
    out
}

/// `dst` holds, for each row of literals of `src`, a row of values that
/// `value` may return for them.
pub open spec fn is_converted_rows<T, V: Fn(&FloatLiteral) -> T>(
    src: Seq<Vec<FloatLiteral>>,
    dst: Seq<Seq<T>>,
    value: V,
) -> bool {
    &&& dst.len() == src.len()
    &&& forall|i: int| 0 <= i < src.len() ==> is_converted(src[i]@, #[trigger] dst[i], value)
}

/// Converts each row of literals of `src` by `value`.
pub fn convert_rows<T, V: Fn(&FloatLiteral) -> T>(src: &Vec<Vec<FloatLiteral>>, value: &V) -> (r:
    Vec<Vec<T>>)
    requires
        forall|l: &FloatLiteral| value.requires((l,)),
    ensures
        is_converted_rows(src@, rows_view(r@), *value),
{
    let mut out: Vec<Vec<T>> = Vec::new();
    let mut i: usize = 0;
    while i < src.len()
        invariant
            forall|l: &FloatLiteral| value.requires((l,)),
            i <= src@.len(),
            out@.len() == i,
            forall|k: int| 0 <= k < i ==> is_converted(src@[k]@, (#[trigger] out@[k])@, *value),
        decreases src@.len() - i,
    {
        let row = convert_all(&src[i], value);
        out.push(row);
        i = i + 1;
    }
    proof {
        let w = rows_view(out@);
        assert forall|k: int| 0 <= k < src@.len() implies is_converted(src@[k]@, #[trigger] w[k], *value) by {
            assert(w[k] == out@[k]@);
        }
    }
    out
}

} // verus!
