//! Expanding a matrix given by its strictly lower triangle.
use vstd::prelude::*;

verus! {

/// The rows of a strictly lower triangle are long enough: row `k` holds at
/// least the `k + 1` entries left of the diagonal.
pub open spec fn is_lower_triangle<T>(lower: Seq<Seq<T>>) -> bool {
    forall|k: int| 0 <= k < lower.len() ==> #[trigger] lower[k].len() >= k + 1
}

/// The entry `(i, j)` off the diagonal of the symmetric matrix whose strictly
/// lower triangle is `lower`.
pub open spec fn lower_row_entry<T>(lower: Seq<Seq<T>>, i: int, j: int) -> T {
    if i < j {
        lower[j - 1][i]
    } else {
        lower[i - 1][j]
    }
}

/// `m` is the symmetric matrix, of size `lower.len() + 1`, whose strictly
/// lower triangle is `lower` and whose diagonal holds `T::default()`.
pub open spec fn is_lower_row_expansion<T: Default>(lower: Seq<Seq<T>>, m: Seq<Seq<T>>) -> bool {
    let n = lower.len() + 1;
    &&& m.len() == n
    &&& forall|i: int| 0 <= i < n ==> (#[trigger] m[i]).len() == n
    &&& forall|i: int, j: int|
        0 <= i < n && 0 <= j < n && i != j ==> #[trigger] m[i][j] == lower_row_entry(lower, i, j)
    &&& forall|i: int| 0 <= i < n ==> call_ensures(T::default, (), #[trigger] m[i][i])
}

/// The full symmetric matrix whose strictly lower triangle is given row by
/// row, with `T::default()` on the diagonal.
pub fn expand_lower_row<T: Default + Copy>(lower_row: &[Vec<T>]) -> (r: Vec<Vec<T>>)
    requires
        lower_row@.len() < usize::MAX,
        is_lower_triangle(lower_row@.map_values(|v: Vec<T>| v@)),
    ensures
        is_lower_row_expansion(lower_row@.map_values(|v: Vec<T>| v@), r@.map_values(|v: Vec<T>| v@)),
{
    let ghost lower = lower_row@.map_values(|v: Vec<T>| v@);
    let size = lower_row.len() + 1;
    let zero = T::default();
    let mut ret: Vec<Vec<T>> = Vec::new();
    let mut i: usize = 0;
    while i < size
        invariant
            size == lower_row@.len() + 1,
            lower == lower_row@.map_values(|v: Vec<T>| v@),
            is_lower_triangle(lower),
            call_ensures(T::default, (), zero),
            i <= size,
            ret@.len() == i,
            forall|a: int| 0 <= a < i ==> (#[trigger] ret@[a])@.len() == size,
            forall|a: int, b: int|
                0 <= a < i && 0 <= b < size && a != b ==> #[trigger] ret@[a]@[b] == lower_row_entry(
                    lower,
                    a,
                    b,
                ),
            forall|a: int| 0 <= a < i ==> #[trigger] ret@[a]@[a] == zero,
        decreases size - i,
    {
        let mut row: Vec<T> = Vec::new();
        let mut j: usize = 0;
        while j < size
            invariant
                size == lower_row@.len() + 1,
                lower == lower_row@.map_values(|v: Vec<T>| v@),
                is_lower_triangle(lower),
                i < size,
                j <= size,
                row@.len() == j,
                forall|b: int| 0 <= b < j && i != b ==> #[trigger] row@[b] == lower_row_entry(lower, i as int, b),
                forall|b: int| 0 <= b < j && i == b ==> #[trigger] row@[b] == zero,
            decreases size - j,
        {
            if i < j {
                proof {
                    assert(lower[j - 1] == lower_row@[j - 1]@);
                    assert(lower[j - 1].len() >= j);
                }
                row.push(lower_row[j - 1][i]);
            } else if i > j {
                proof {
                    assert(lower[i - 1] == lower_row@[i - 1]@);
                    assert(lower[i - 1].len() >= i);
                }
                row.push(lower_row[i - 1][j]);
            } else {
                row.push(zero);
            }
            j = j + 1;
        }
        ret.push(row);
        i = i + 1;
    }
    proof {
        let m = ret@.map_values(|v: Vec<T>| v@);
        assert forall|a: int| 0 <= a < size implies call_ensures(T::default, (), #[trigger] m[a][a]) by {
            assert(m[a] == ret@[a]@);
        }
        assert forall|a: int| 0 <= a < size implies (#[trigger] m[a]).len() == size by {
            assert(m[a] == ret@[a]@);
        }
        assert forall|a: int, b: int|
            0 <= a < size && 0 <= b < size && a != b implies #[trigger] m[a][b] == lower_row_entry(
            lower,
            a,
            b,
        ) by {
            assert(m[a] == ret@[a]@);
        }
    }
    ret
}

/// The expansion of a lower triangle is a symmetric matrix: the weight from
/// `i` to `j` is the weight from `j` to `i`.
pub proof fn lemma_lower_row_expansion_is_symmetric<T: Default>(lower: Seq<Seq<T>>, m: Seq<Seq<T>>)
    requires
        is_lower_row_expansion(lower, m),
    ensures
        forall|i: int, j: int| 0 <= i < m.len() && 0 <= j < m.len() ==> #[trigger] m[i][j] == m[j][i],
{
    assert forall|i: int, j: int| 0 <= i < m.len() && 0 <= j < m.len() implies #[trigger] m[i][j]
        == m[j][i] by {
        if i != j {
            assert(m[i][j] == lower_row_entry(lower, i, j));
            assert(m[j][i] == lower_row_entry(lower, j, i));
        }
    }
}

/// The expansion of a lower triangle places row `i - 1` of the triangle,
/// entry by entry, left of the diagonal in row `i` and above the diagonal in
/// column `i`: for `j < i`, the weights between `i` and `j`, both ways, are
/// entry `j` of lower row `i - 1`.
pub proof fn lemma_lower_row_expansion_entries<T: Default>(lower: Seq<Seq<T>>, m: Seq<Seq<T>>)
    requires
        is_lower_row_expansion(lower, m),
    ensures
        m.len() == lower.len() + 1,
        forall|i: int, j: int|
            0 <= j < i < m.len() ==> #[trigger] m[i][j] == lower[i - 1][j] && m[j][i] == lower[i
                - 1][j],
{
    assert forall|i: int, j: int| 0 <= j < i < m.len() implies #[trigger] m[i][j] == lower[i
        - 1][j] && m[j][i] == lower[i - 1][j] by {
        assert(m[i][j] == lower_row_entry(lower, i, j));
        assert(m[j][i] == lower_row_entry(lower, j, i));
    }
}

} // verus!
