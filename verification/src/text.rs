//! Character-level text handling: Unicode whitespace, trimming, splitting
//! on whitespace, and the conversions between `str`, `String` and `Vec<char>`.
use vstd::prelude::*;

verus! {

/// A character with the Unicode `White_Space` property, which is what
/// `char::is_whitespace` tests.
pub open spec fn is_whitespace(c: char) -> bool {
    let u = c as u32;
    ||| 0x09 <= u <= 0x0D
    ||| u == 0x20
    ||| u == 0x85
    ||| u == 0xA0
    ||| u == 0x1680
    ||| 0x2000 <= u <= 0x200A
    ||| u == 0x2028
    ||| u == 0x2029
    ||| u == 0x202F
    ||| u == 0x205F
    ||| u == 0x3000
}

pub fn is_whitespace_char(c: char) -> (r: bool)
    ensures
        r == is_whitespace(c),
{
    let u = c as u32;
    (0x09 <= u && u <= 0x0D) || u == 0x20 || u == 0x85 || u == 0xA0 || u == 0x1680 || (0x2000
        <= u && u <= 0x200A) || u == 0x2028 || u == 0x2029 || u == 0x202F || u == 0x205F || u
        == 0x3000
}

/// `s` without its leading whitespace.
pub open spec fn trim_start(s: Seq<char>) -> Seq<char>
    decreases s.len(),
{
    if s.len() > 0 && is_whitespace(s[0]) {
        trim_start(s.drop_first())
    } else {
        s
    }
}

/// `s` without its trailing whitespace.
pub open spec fn trim_end(s: Seq<char>) -> Seq<char>
    decreases s.len(),
{
    if s.len() > 0 && is_whitespace(s.last()) {
        trim_end(s.drop_last())
    } else {
        s
    }
}

/// `s` without leading and trailing whitespace, as `str::trim` gives it.
pub open spec fn trim(s: Seq<char>) -> Seq<char> {
    trim_end(trim_start(s))
}

/// The number of non-whitespace characters that `s` starts with.
pub open spec fn word_len(s: Seq<char>) -> nat
    decreases s.len(),
{
    if s.len() > 0 && !is_whitespace(s[0]) {
        1 + word_len(s.drop_first())
    } else {
        0
    }
}

/// The maximal runs of non-whitespace characters of `s`, in order, as
/// `str::split_whitespace` yields them.
pub open spec fn words(s: Seq<char>) -> Seq<Seq<char>>
    decreases s.len(),
{
    if s.len() == 0 {
        Seq::empty()
    } else if is_whitespace(s[0]) {
        words(s.drop_first())
    } else {
        let n = word_len(s);
        proof {
            lemma_word_len_bound(s);
        }
        seq![s.subrange(0, n as int)] + words(s.subrange(n as int, s.len() as int))
    }
}

/// The character sequences of a sequence of strings.
pub open spec fn strings_view(v: Seq<String>) -> Seq<Seq<char>> {
    v.map_values(|s: String| s@)
}

proof fn lemma_trim_start_skip(s: Seq<char>, i: int)
    requires
        0 <= i <= s.len(),
        forall|k: int| 0 <= k < i ==> is_whitespace(#[trigger] s[k]),
    ensures
        trim_start(s) == trim_start(s.subrange(i, s.len() as int)),
    decreases i,
{
    if i == 0 {
        assert(s.subrange(0, s.len() as int) =~= s);
    } else {
        let t = s.drop_first();
        assert forall|k: int| 0 <= k < i - 1 implies is_whitespace(#[trigger] t[k]) by {
            assert(t[k] == s[k + 1]);
        }
        lemma_trim_start_skip(t, i - 1);
        assert(t.subrange(i - 1, t.len() as int) =~= s.subrange(i, s.len() as int));
    }
}

proof fn lemma_trim_end_skip(s: Seq<char>, j: int)
    requires
        0 <= j <= s.len(),
        forall|k: int| j <= k < s.len() ==> is_whitespace(#[trigger] s[k]),
    ensures
        trim_end(s) == trim_end(s.subrange(0, j)),
    decreases s.len() - j,
{
    if j == s.len() {
        assert(s.subrange(0, j) =~= s);
    } else {
        let t = s.drop_last();
        assert forall|k: int| j <= k < t.len() implies is_whitespace(#[trigger] t[k]) by {
            assert(t[k] == s[k]);
        }
        lemma_trim_end_skip(t, j);
        assert(t.subrange(0, j) =~= s.subrange(0, j));
    }
}

/// The bounds, within `lo..hi`, of the trimmed text `v[lo..hi]`.
pub fn trim_range(v: &Vec<char>, lo: usize, hi: usize) -> (r: (usize, usize))
    requires
        lo <= hi <= v.len(),
    ensures
        lo <= r.0 <= r.1 <= hi,
        v@.subrange(r.0 as int, r.1 as int) == trim(v@.subrange(lo as int, hi as int)),
{
    let mut a = lo;
    while a < hi && is_whitespace_char(v[a])
        invariant
            lo <= a <= hi <= v.len(),
            forall|k: int| lo <= k < a ==> is_whitespace(#[trigger] v@[k]),
        decreases hi - a,
    {
        a = a + 1;
    }
    let ghost s = v@.subrange(lo as int, hi as int);
    proof {
        assert forall|k: int| 0 <= k < a - lo implies is_whitespace(#[trigger] s[k]) by {
            assert(s[k] == v@[lo + k]);
        }
        lemma_trim_start_skip(s, a - lo);
        assert(s.subrange(a - lo, s.len() as int) =~= v@.subrange(a as int, hi as int));
        let t = v@.subrange(a as int, hi as int);
        if t.len() > 0 {
            assert(t[0] == v@[a as int]);
        }
        assert(trim_start(t) == t);
    }
    let mut b = hi;
    while b > a && is_whitespace_char(v[b - 1])
        invariant
            lo <= a <= b <= hi <= v.len(),
            forall|k: int| b <= k < hi ==> is_whitespace(#[trigger] v@[k]),
        decreases b - a,
    {
        b = b - 1;
    }
    proof {
        let t = v@.subrange(a as int, hi as int);
        assert forall|k: int| b - a <= k < t.len() implies is_whitespace(#[trigger] t[k]) by {
            assert(t[k] == v@[a + k]);
        }
        lemma_trim_end_skip(t, b - a);
        let u = t.subrange(0, b - a);
        assert(u =~= v@.subrange(a as int, b as int));
        if u.len() > 0 {
            assert(u.last() == v@[b - 1]);
        }
        assert(trim_end(u) == u);
    }
    (a, b)
}

pub proof fn lemma_word_len_bound(s: Seq<char>)
    ensures
        word_len(s) <= s.len(),
        forall|k: int| 0 <= k < word_len(s) ==> !is_whitespace(#[trigger] s[k]),
        word_len(s) < s.len() ==> is_whitespace(s[word_len(s) as int]),
    decreases s.len(),
{
    if s.len() > 0 && !is_whitespace(s[0]) {
        let t = s.drop_first();
        lemma_word_len_bound(t);
        assert forall|k: int| 0 <= k < word_len(s) implies !is_whitespace(#[trigger] s[k]) by {
            if k > 0 {
                assert(s[k] == t[k - 1]);
            }
        }
        if word_len(s) < s.len() {
            assert(s[word_len(s) as int] == t[word_len(t) as int]);
        }
    }
}

proof fn lemma_word_len_exact(s: Seq<char>, n: int)
    requires
        0 <= n <= s.len(),
        forall|k: int| 0 <= k < n ==> !is_whitespace(#[trigger] s[k]),
        n == s.len() || is_whitespace(s[n]),
    ensures
        word_len(s) == n,
    decreases n,
{
    if n > 0 {
        let t = s.drop_first();
        assert forall|k: int| 0 <= k < n - 1 implies !is_whitespace(#[trigger] t[k]) by {
            assert(t[k] == s[k + 1]);
        }
        if n < s.len() {
            assert(t[n - 1] == s[n]);
        }
        lemma_word_len_exact(t, n - 1);
    }
}

/// A copy of `v[lo..hi]`.
pub fn copy_range(v: &Vec<char>, lo: usize, hi: usize) -> (r: Vec<char>)
    requires
        lo <= hi <= v.len(),
    ensures
        r@ == v@.subrange(lo as int, hi as int),
{
    let mut r: Vec<char> = Vec::new();
    let mut i = lo;
    while i < hi
        invariant
            lo <= i <= hi <= v.len(),
            r@ == v@.subrange(lo as int, i as int),
        decreases hi - i,
    {
        r.push(v[i]);
        proof {
            assert(r@ =~= v@.subrange(lo as int, i + 1));
        }
        i = i + 1;
    }
    r
}

/// The text `v[lo..hi]` as a `String`.
pub fn string_of_range(v: &Vec<char>, lo: usize, hi: usize) -> (r: String)
    requires
        lo <= hi <= v.len(),
    ensures
        r@ == v@.subrange(lo as int, hi as int),
{
    let c = copy_range(v, lo, hi);
    string_from_chars(c.as_slice())
}

/// Builds a `String` from its characters, through std's
/// `impl FromIterator<&char> for String`, which appends them in order.
#[verifier::external_body]
fn string_from_chars(v: &[char]) -> (r: String)
    ensures
        r@ == v@,
{
    String::from_iter(v)
}

/// The whitespace-separated words of `v[lo..hi]`, each as a `String`.
pub fn split_whitespace_range(v: &Vec<char>, lo: usize, hi: usize) -> (r: Vec<String>)
    requires
        lo <= hi <= v.len(),
    ensures
        strings_view(r@) == words(v@.subrange(lo as int, hi as int)),
{
    let mut r: Vec<String> = Vec::new();
    let mut i = lo;
    proof {
        assert(strings_view(r@) =~= Seq::<Seq<char>>::empty());
        assert(Seq::<Seq<char>>::empty() + words(v@.subrange(lo as int, hi as int)) =~= words(
            v@.subrange(lo as int, hi as int),
        ));
    }
    while i < hi
        invariant
            lo <= i <= hi <= v.len(),
            words(v@.subrange(lo as int, hi as int)) == strings_view(r@) + words(
                v@.subrange(i as int, hi as int),
            ),
        decreases hi - i,
    {
        let ghost s = v@.subrange(i as int, hi as int);
        if is_whitespace_char(v[i]) {
            proof {
                assert(s[0] == v@[i as int]);
                assert(s.drop_first() =~= v@.subrange(i + 1, hi as int));
            }
            i = i + 1;
        } else {
            let mut j = i;
            while j < hi && !is_whitespace_char(v[j])
                invariant
                    i <= j <= hi <= v.len(),
                    forall|k: int| i <= k < j ==> !is_whitespace(#[trigger] v@[k]),
                decreases hi - j,
            {
                j = j + 1;
            }
            let w = string_of_range(v, i, j);
            proof {
                assert(s[0] == v@[i as int]);
                assert forall|k: int| 0 <= k < j - i implies !is_whitespace(#[trigger] s[k]) by {
                    assert(s[k] == v@[i + k]);
                }
                if j < hi {
                    assert(s[j - i] == v@[j as int]);
                }
                lemma_word_len_exact(s, j - i);
                assert(s.subrange(0, j - i) =~= v@.subrange(i as int, j as int));
                assert(s.subrange(j - i, s.len() as int) =~= v@.subrange(j as int, hi as int));
            }
            let ghost old_r = r@;
            r.push(w);
            proof {
                assert(strings_view(r@) =~= strings_view(old_r).push(w@));
                assert(words(s) == seq![w@] + words(v@.subrange(j as int, hi as int)));
                assert(strings_view(old_r) + words(s) =~= strings_view(r@) + words(
                    v@.subrange(j as int, hi as int),
                ));
            }
            i = j;
        }
    }
    proof {
        assert(v@.subrange(i as int, hi as int) =~= Seq::<char>::empty());
        assert(strings_view(r@) + Seq::<Seq<char>>::empty() =~= strings_view(r@));
    }
    r
}

/// The characters of `s`, in order.
pub fn chars_of(s: &str) -> (v: Vec<char>)
    ensures
        v@ == s@,
{
    let mut v: Vec<char> = Vec::new();
    for c in it: s.chars()
        invariant
            v@ == it.seq().take(it.index() as int),
            it.seq() == s@,
    {
        v.push(c);
    }
    v
}

/// Whether `v[lo..hi]` is the text `lit`.
pub fn range_eq(v: &Vec<char>, lo: usize, hi: usize, lit: &[char]) -> (r: bool)
    requires
        lo <= hi <= v.len(),
    ensures
        r == (v@.subrange(lo as int, hi as int) == lit@),
{
    if hi - lo != lit.len() {
        proof {
            assert(v@.subrange(lo as int, hi as int).len() != lit@.len());
        }
        return false;
    }
    let mut k: usize = 0;
    while k < lit.len()
        invariant
            lo <= hi <= v.len(),
            hi - lo == lit.len(),
            k <= lit.len(),
            forall|m: int| 0 <= m < k ==> v@[lo + m] == lit@[m],
        decreases lit.len() - k,
    {
        if v[lo + k] != lit[k] {
            proof {
                assert(v@.subrange(lo as int, hi as int)[k as int] != lit@[k as int]);
            }
            return false;
        }
        k = k + 1;
    }
    proof {
        assert(v@.subrange(lo as int, hi as int) =~= lit@);
    }
    true
}

/// Whether `s` contains the character `c`; if so, the index of its first
/// occurrence.
pub open spec fn first_index_of(s: Seq<char>, c: char) -> Option<int>
    decreases s.len(),
{
    if s.len() == 0 {
        None
    } else if s[0] == c {
        Some(0)
    } else {
        match first_index_of(s.drop_first(), c) {
            Some(i) => Some(i + 1),
            None => None,
        }
    }
}

pub proof fn lemma_first_index_exact(s: Seq<char>, c: char, i: int)
    requires
        0 <= i <= s.len(),
        forall|k: int| 0 <= k < i ==> #[trigger] s[k] != c,
    ensures
        i < s.len() && s[i] == c ==> first_index_of(s, c) == Some(i),
        i == s.len() ==> first_index_of(s, c) is None,
    decreases i,
{
    if i > 0 {
        let t = s.drop_first();
        assert forall|k: int| 0 <= k < i - 1 implies #[trigger] t[k] != c by {
            assert(t[k] == s[k + 1]);
        }
        if i < s.len() {
            assert(t[i - 1] == s[i]);
        }
        lemma_first_index_exact(t, c, i - 1);
        assert(s[0] != c);
    }
}

/// The index of the first `c` in `v`, if there is one.
pub fn find_char(v: &Vec<char>, c: char) -> (r: Option<usize>)
    ensures
        match r {
            Some(i) => first_index_of(v@, c) == Some(i as int) && i < v.len(),
            None => first_index_of(v@, c) is None,
        },
{
    let mut i: usize = 0;
    while i < v.len()
        invariant
            i <= v.len(),
            forall|k: int| 0 <= k < i ==> #[trigger] v@[k] != c,
        decreases v.len() - i,
    {
        if v[i] == c {
            proof {
                lemma_first_index_exact(v@, c, i as int);
            }
            return Some(i);
        }
        i = i + 1;
    }
    proof {
        lemma_first_index_exact(v@, c, i as int);
    }
    None
}

/// Whether `v` is the text `lit`.
pub fn chars_are(v: &Vec<char>, lit: &[char]) -> (r: bool)
    ensures
        r == (v@ == lit@),
{
    let r = range_eq(v, 0, v.len(), lit);
    proof {
        assert(v@.subrange(0, v@.len() as int) =~= v@);
    }
    r
}

/// `trim_start(s)` is a suffix of `s`.
pub proof fn lemma_trim_start_suffix(s: Seq<char>)
    ensures
        trim_start(s).len() <= s.len(),
        trim_start(s) == s.skip(s.len() - trim_start(s).len()),
    decreases s.len(),
{
    if s.len() > 0 && is_whitespace(s[0]) {
        lemma_trim_start_suffix(s.drop_first());
        assert(s.drop_first().skip(s.len() - 1 - trim_start(s).len()) =~= s.skip(
            s.len() - trim_start(s).len(),
        ));
    } else {
        assert(s.skip(0) =~= s);
    }
}

/// `trim_end(s)` is a prefix of `s`.
pub proof fn lemma_trim_end_prefix(s: Seq<char>)
    ensures
        trim_end(s).len() <= s.len(),
        trim_end(s) == s.take(trim_end(s).len() as int),
    decreases s.len(),
{
    if s.len() > 0 && is_whitespace(s.last()) {
        lemma_trim_end_prefix(s.drop_last());
        assert(s.drop_last().take(trim_end(s).len() as int) =~= s.take(trim_end(s).len() as int));
    } else {
        assert(s.take(s.len() as int) =~= s);
    }
}

/// A text that trimming leaves unchanged has no whitespace at either end to
/// remove: neither half of the trim changes it.
pub proof fn lemma_trimmed_text(v: Seq<char>)
    requires
        trim(v) == v,
    ensures
        trim_start(v) == v,
        trim_end(v) == v,
{
    lemma_trim_start_suffix(v);
    lemma_trim_end_prefix(trim_start(v));
    assert(trim_start(v).len() == v.len());
    assert(v.skip(0) =~= v);
}

/// A space before a trimmed text is trimmed away.
pub proof fn lemma_trim_space_before(v: Seq<char>)
    requires
        trim(v) == v,
    ensures
        trim(seq![' '] + v) == v,
{
    lemma_trimmed_text(v);
    let s = seq![' '] + v;
    assert(is_whitespace(' '));
    assert(s.drop_first() =~= v);
}

/// A space after a word without whitespace at its ends is trimmed away.
pub proof fn lemma_trim_space_after(k: Seq<char>)
    requires
        k.len() > 0,
        !is_whitespace(k[0]),
        !is_whitespace(k.last()),
    ensures
        trim(k + seq![' ']) == k,
{
    let s = k + seq![' '];
    assert(s[0] == k[0]);
    assert(trim_start(s) == s);
    assert(is_whitespace(' '));
    assert(s.last() == ' ');
    assert(s.drop_last() =~= k);
    assert(trim_end(s) == trim_end(k));
    assert(trim_end(k) == k);
}

} // verus!
