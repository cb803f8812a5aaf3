//! Byte-string utilities shared by the buffer engine and the command layer.
//!
//! All document text in this crate is a sequence of bytes; these helpers give
//! the exec operations (comparison, substring search, line counting, ASCII
//! case folding) together with the spec functions that the rest of the crate
//! states its contracts over.

use vstd::prelude::*;

verus! {

/// The view of an optional byte string.
pub open spec fn opt_bytes(o: Option<Vec<u8>>) -> Option<Seq<u8>> {
    match o {
        Some(v) => Some(v@),
        None => None,
    }
}

/// Byte-wise equality of two byte strings.
pub fn bytes_eq(a: &Vec<u8>, b: &Vec<u8>) -> (r: bool)
    ensures
        r == (a@ == b@),
{
    if a.len() != b.len() {
        assert(a@.len() != b@.len());
        return false;
    }
    let mut i: usize = 0;
    while i < a.len()
        invariant
            i <= a.len(),
            a@.len() == b@.len(),
            forall|j: int| 0 <= j < i ==> a@[j] == b@[j],
        decreases a.len() - i,
    {
        if a[i] != b[i] {
            return false;
        }
        i += 1;
    }
    assert(a@ =~= b@);
    true
}

/// An independent copy of a byte string.
pub fn copy_bytes(v: &Vec<u8>) -> (r: Vec<u8>)
    ensures
        r@ == v@,
{
    let mut r: Vec<u8> = Vec::new();
    let mut i: usize = 0;
    while i < v.len()
        invariant
            i <= v.len(),
            r@ == v@.subrange(0, i as int),
        decreases v.len() - i,
    {
        r.push(v[i]);
        assert(r@ =~= v@.subrange(0, i + 1));
        i += 1;
    }
    assert(r@ =~= v@);
    r
}

/// The bytes of `v` from offset `a` up to (excluding) offset `b`.
pub fn sub_bytes(v: &Vec<u8>, a: usize, b: usize) -> (r: Vec<u8>)
    requires
        a <= b <= v@.len(),
    ensures
        r@ == v@.subrange(a as int, b as int),
{
    let mut r: Vec<u8> = Vec::new();
    let mut i: usize = a;
    while i < b
        invariant
            a <= i <= b <= v@.len(),
            r@ == v@.subrange(a as int, i as int),
        decreases b - i,
    {
        r.push(v[i]);
        assert(r@ =~= v@.subrange(a as int, i + 1));
        i += 1;
    }
    r
}

/// `q` occurs in `c` at byte offset `i`.
pub open spec fn match_at(c: Seq<u8>, q: Seq<u8>, i: int) -> bool {
    0 <= i && i + q.len() <= c.len() && c.subrange(i, i + q.len()) == q
}

/// `q` occurs somewhere in `c`.
pub open spec fn contains_seq(c: Seq<u8>, q: Seq<u8>) -> bool {
    exists|i: int| match_at(c, q, i)
}

/// Whether `q` occurs in `c` at offset `i` (which must be in range).
pub fn is_match_at(c: &Vec<u8>, q: &Vec<u8>, i: usize) -> (r: bool)
    requires
        i + q@.len() <= c@.len(),
    ensures
        r == match_at(c@, q@, i as int),
{
    proof {
        assert(c@.len() == c.len());
    }
    let mut k: usize = 0;
    while k < q.len()
        invariant
            k <= q@.len(),
            i + q@.len() <= c@.len(),
            c@.len() <= usize::MAX,
            forall|j: int| 0 <= j < k ==> c@[i + j] == q@[j],
        decreases q.len() - k,
    {
        if c[i + k] != q[k] {
            assert(c@.subrange(i as int, i + q@.len())[k as int] != q@[k as int]);
            return false;
        }
        k += 1;
    }
    assert(c@.subrange(i as int, i + q@.len()) =~= q@);
    true
}

/// The first occurrence of `q` in `c` at or after offset `from`, if any.
pub fn find_from(c: &Vec<u8>, q: &Vec<u8>, from: usize) -> (r: Option<usize>)
    ensures
        match r {
            Some(p) => from <= p && match_at(c@, q@, p as int) && forall|j: int|
                from <= j < p ==> !match_at(c@, q@, j),
            None => forall|j: int| from <= j ==> !match_at(c@, q@, j),
        },
{
    if q.len() > c.len() || from > c.len() - q.len() {
        return None;
    }
    let last = c.len() - q.len();
    let mut i: usize = from;
    while i < last
        invariant
            from <= i <= last,
            q@.len() <= c@.len(),
            last == c@.len() - q@.len(),
            forall|j: int| from <= j < i ==> !match_at(c@, q@, j),
        decreases last - i,
    {
        if is_match_at(c, q, i) {
            return Some(i);
        }
        i += 1;
    }
    if is_match_at(c, q, last) {
        Some(last)
    } else {
        None
    }
}

/// Whether `q` occurs anywhere in `c`.
pub fn contains(c: &Vec<u8>, q: &Vec<u8>) -> (r: bool)
    ensures
        r == contains_seq(c@, q@),
{
    find_from(c, q, 0).is_some()
}

/// Whether `c` starts with `p`.
pub fn has_prefix(c: &Vec<u8>, p: &Vec<u8>) -> (r: bool)
    ensures
        r == match_at(c@, p@, 0),
{
    if p.len() > c.len() {
        return false;
    }
    is_match_at(c, p, 0)
}

/// Appends `src` to `dst`.
pub fn append_bytes(dst: &mut Vec<u8>, src: &Vec<u8>)
    ensures
        final(dst)@ == old(dst)@ + src@,
{
    let ghost pre = dst@;
    let mut i: usize = 0;
    while i < src.len()
        invariant
            i <= src@.len(),
            dst@ == pre + src@.subrange(0, i as int),
        decreases src.len() - i,
    {
        dst.push(src[i]);
        assert(dst@ =~= pre + src@.subrange(0, i + 1));
        i += 1;
    }
    assert(dst@ =~= pre + src@);
}

/// ASCII lower case of one byte.
pub open spec fn lower_byte(b: u8) -> u8 {
    if 65 <= b <= 90 {
        (b + 32) as u8
    } else {
        b
    }
}

/// Byte-wise ASCII lower case of a byte string; bytes outside `A`..`Z` are
/// kept as they are, so the length never changes.
pub open spec fn lower(c: Seq<u8>) -> Seq<u8> {
    Seq::new(c.len(), |i: int| lower_byte(c[i]))
}

/// Byte-wise ASCII lower case.
pub fn lower_bytes(c: &Vec<u8>) -> (r: Vec<u8>)
    ensures
        r@ == lower(c@),
{
    let mut r: Vec<u8> = Vec::new();
    let mut i: usize = 0;
    while i < c.len()
        invariant
            i <= c@.len(),
            r@ == lower(c@).subrange(0, i as int),
        decreases c.len() - i,
    {
        let b = c[i];
        if 65 <= b && b <= 90 {
            r.push(b + 32);
        } else {
            r.push(b);
        }
        assert(r@ =~= lower(c@).subrange(0, i + 1));
        i += 1;
    }
    assert(r@ =~= lower(c@));
    r
}

/// The content after replacing, left to right and without overlap, every
/// occurrence of `ql` in the folded text `cl` by `rep`, scanning from byte
/// offset `from`. Unmatched bytes are taken from the unfolded text `c`, so
/// casing outside the match spans survives a case-insensitive replace. An
/// empty `ql` matches nothing.
pub open spec fn replaced_from(c: Seq<u8>, cl: Seq<u8>, ql: Seq<u8>, rep: Seq<u8>, from: int) -> Seq<
    u8,
>
    decreases c.len() - from,
{
    if !(0 <= from < c.len()) {
        Seq::<u8>::empty()
    } else if ql.len() > 0 && ql.len() <= c.len() - from && match_at(cl, ql, from) {
        rep + replaced_from(c, cl, ql, rep, from + ql.len())
    } else {
        seq![c[from]] + replaced_from(c, cl, ql, rep, from + 1)
    }
}

/// How many occurrences [`replaced_from`] replaces from byte offset `from`
/// on.
pub open spec fn replace_count(cl: Seq<u8>, ql: Seq<u8>, from: int) -> int
    decreases cl.len() - from,
{
    if ql.len() == 0 || !(0 <= from) || from + ql.len() > cl.len() {
        0
    } else if match_at(cl, ql, from) {
        1 + replace_count(cl, ql, from + ql.len())
    } else {
        replace_count(cl, ql, from + 1)
    }
}

/// How many times byte `b` occurs in `c`.
pub open spec fn count_byte(c: Seq<u8>, b: u8) -> int
    decreases c.len(),
{
    if c.len() == 0 {
        0
    } else {
        count_byte(c.drop_last(), b) + if c.last() == b {
            1int
        } else {
            0int
        }
    }
}

/// The number of newline-delimited segments of `c`: empty text has no lines,
/// and a final segment without a terminating newline still counts.
pub open spec fn line_count(c: Seq<u8>) -> int {
    if c.len() == 0 {
        0
    } else {
        count_byte(c, 10) + if c.last() == 10 {
            0int
        } else {
            1int
        }
    }
}

proof fn lemma_count_byte_bound(c: Seq<u8>, b: u8)
    ensures
        0 <= count_byte(c, b) <= c.len(),
    decreases c.len(),
{
    if c.len() > 0 {
        lemma_count_byte_bound(c.drop_last(), b);
    }
}

/// The number of lines of `c`, under the counting rule of [`line_count`].
pub fn count_lines(c: &Vec<u8>) -> (r: usize)
    ensures
        r == line_count(c@),
{
    let mut n: usize = 0;
    let mut i: usize = 0;
    while i < c.len()
        invariant
            i <= c@.len(),
            0 <= n <= i,
            n == count_byte(c@.subrange(0, i as int), 10),
        decreases c.len() - i,
    {
        proof {
            assert(c@.subrange(0, i + 1).drop_last() =~= c@.subrange(0, i as int));
            assert(c@.subrange(0, i + 1).last() == c@[i as int]);
        }
        if c[i] == 10 {
            n += 1;
        }
        i += 1;
    }
    assert(c@.subrange(0, c@.len() as int) =~= c@);
    if c.len() == 0 {
        0
    } else if c[c.len() - 1] == 10 {
        n
    } else {
        proof {
            lemma_count_byte_bound(c@, 10);
            assert(c@.drop_last().push(c@.last()) =~= c@);
            lemma_count_byte_bound(c@.drop_last(), 10);
        }
        n + 1
    }
}

/// ASCII whitespace.
pub open spec fn is_space(b: u8) -> bool {
    b == 32 || b == 9 || b == 10 || b == 11 || b == 12 || b == 13
}

/// `c` without its leading whitespace.
pub open spec fn trim_front(c: Seq<u8>) -> Seq<u8>
    decreases c.len(),
{
    if c.len() > 0 && is_space(c[0]) {
        trim_front(c.drop_first())
    } else {
        c
    }
}

/// `c` without its trailing whitespace.
pub open spec fn trim_back(c: Seq<u8>) -> Seq<u8>
    decreases c.len(),
{
    if c.len() > 0 && is_space(c.last()) {
        trim_back(c.drop_last())
    } else {
        c
    }
}

/// `c` without leading and trailing whitespace.
pub open spec fn trimmed(c: Seq<u8>) -> Seq<u8> {
    trim_back(trim_front(c))
}

proof fn lemma_trim_front_skip(c: Seq<u8>, i: int)
    requires
        0 <= i <= c.len(),
        forall|j: int| 0 <= j < i ==> is_space(c[j]),
        i == c.len() || !is_space(c[i]),
    ensures
        trim_front(c) == c.subrange(i, c.len() as int),
    decreases i,
{
    if i == 0 {
        assert(trim_front(c) =~= c.subrange(0, c.len() as int));
    } else {
        let d = c.drop_first();
        assert(forall|j: int| 0 <= j < i - 1 ==> is_space(#[trigger] d[j]));
        lemma_trim_front_skip(d, i - 1);
        assert(d.subrange(i - 1, d.len() as int) =~= c.subrange(i, c.len() as int));
    }
}

proof fn lemma_trim_back_skip(c: Seq<u8>, i: int)
    requires
        0 <= i <= c.len(),
        forall|j: int| i <= j < c.len() ==> is_space(c[j]),
        i == 0 || !is_space(c[i - 1]),
    ensures
        trim_back(c) == c.subrange(0, i),
    decreases c.len() - i,
{
    if i == c.len() {
        assert(trim_back(c) =~= c.subrange(0, i));
    } else {
        let d = c.drop_last();
        lemma_trim_back_skip(d, i);
        assert(d.subrange(0, i) =~= c.subrange(0, i));
    }
}

/// `c` without leading and trailing ASCII whitespace.
pub fn trim(c: &Vec<u8>) -> (r: Vec<u8>)
    ensures
        r@ == trimmed(c@),
{
    let mut a: usize = 0;
    while a < c.len() && is_space_exec(c[a])
        invariant
            a <= c@.len(),
            forall|j: int| 0 <= j < a ==> is_space(c@[j]),
        decreases c.len() - a,
    {
        a += 1;
    }
    proof {
        lemma_trim_front_skip(c@, a as int);
    }
    let mut b: usize = c.len();
    while b > a && is_space_exec(c[b - 1])
        invariant
            a <= b <= c@.len(),
            forall|j: int| b <= j < c@.len() ==> is_space(c@[j]),
        decreases b,
    {
        b -= 1;
    }
    proof {
        let f = c@.subrange(a as int, c@.len() as int);
        assert(forall|j: int| b - a <= j < f.len() ==> is_space(#[trigger] f[j]));
        lemma_trim_back_skip(f, b - a);
        assert(f.subrange(0, b - a) =~= c@.subrange(a as int, b as int));
    }
    sub_bytes(c, a, b)
}

/// Whether `b` is ASCII whitespace.
pub fn is_space_exec(b: u8) -> (r: bool)
    ensures
        r == is_space(b),
{
    b == 32 || b == 9 || b == 10 || b == 11 || b == 12 || b == 13
}

/// The length of the run of non-whitespace bytes at the front of `c`.
pub open spec fn word_len(c: Seq<u8>) -> nat
    decreases c.len(),
{
    if c.len() > 0 && !is_space(c[0]) {
        1 + word_len(c.drop_first())
    } else {
        0
    }
}

/// The whitespace-separated words of `c`, in order.
pub open spec fn words_of(c: Seq<u8>) -> Seq<Seq<u8>>
    decreases c.len(),
{
    if c.len() == 0 {
        Seq::<Seq<u8>>::empty()
    } else if is_space(c[0]) {
        words_of(c.drop_first())
    } else {
        let w = if word_len(c) <= c.len() {
            word_len(c) as int
        } else {
            c.len() as int
        };
        seq![c.subrange(0, w)] + words_of(c.subrange(w, c.len() as int))
    }
}

proof fn lemma_word_len_bound(c: Seq<u8>)
    ensures
        word_len(c) <= c.len(),
        word_len(c) < c.len() ==> is_space(c[word_len(c) as int]),
        forall|j: int| 0 <= j < word_len(c) ==> !is_space(c[j]),
    decreases c.len(),
{
    if c.len() > 0 && !is_space(c[0]) {
        let d = c.drop_first();
        lemma_word_len_bound(d);
        assert forall|j: int| 0 <= j < word_len(c) implies !is_space(c[j]) by {
            if j > 0 {
                assert(!is_space(d[j - 1]));
            }
        }
    }
}

proof fn lemma_words_skip_spaces(c: Seq<u8>, i: int)
    requires
        0 <= i <= c.len(),
        forall|j: int| 0 <= j < i ==> is_space(c[j]),
    ensures
        words_of(c) == words_of(c.subrange(i, c.len() as int)),
    decreases i,
{
    if i > 0 {
        let d = c.drop_first();
        assert(forall|j: int| 0 <= j < i - 1 ==> is_space(#[trigger] d[j]));
        lemma_words_skip_spaces(d, i - 1);
        assert(d.subrange(i - 1, d.len() as int) =~= c.subrange(i, c.len() as int));
    } else {
        assert(c.subrange(0, c.len() as int) =~= c);
    }
}

proof fn lemma_words_take_word(c: Seq<u8>, w: int)
    requires
        0 < w <= c.len(),
        forall|j: int| 0 <= j < w ==> !is_space(c[j]),
        w == c.len() || is_space(c[w]),
    ensures
        words_of(c) == seq![c.subrange(0, w)] + words_of(c.subrange(w, c.len() as int)),
    decreases c.len(),
{
    assert(!is_space(c[0]));
    lemma_word_len_bound(c);
    assert(word_len(c) == w) by {
        if word_len(c) < w {
            assert(is_space(c[word_len(c) as int]));
        } else if w < word_len(c) {
            assert(!is_space(c[w]));
        }
    }
}

/// The whitespace-separated words of `c`, as owned byte strings.
pub fn split_words(c: &Vec<u8>) -> (r: Vec<Vec<u8>>)
    ensures
        r@.map_values(|w: Vec<u8>| w@) == words_of(c@),
{
    let mut r: Vec<Vec<u8>> = Vec::new();
    let mut i: usize = 0;
    proof {
        assert(c@.subrange(0, c@.len() as int) =~= c@);
        assert(r@.map_values(|w: Vec<u8>| w@) =~= Seq::<Seq<u8>>::empty());
    }
    while i < c.len()
        invariant
            i <= c@.len(),
            words_of(c@) == r@.map_values(|w: Vec<u8>| w@) + words_of(
                c@.subrange(i as int, c@.len() as int),
            ),
        decreases c.len() - i,
    {
        let ghost rest = c@.subrange(i as int, c@.len() as int);
        if is_space_exec(c[i]) {
            proof {
                let rest2 = c@.subrange(i + 1, c@.len() as int);
                assert(rest.drop_first() =~= rest2);
            }
            i += 1;
        } else {
            let mut j: usize = i + 1;
            while j < c.len() && !is_space_exec(c[j])
                invariant
                    i < j <= c@.len(),
                    forall|m: int| i <= m < j ==> !is_space(c@[m]),
                decreases c.len() - j,
            {
                j += 1;
            }
            let word = sub_bytes(c, i, j);
            proof {
                assert(forall|m: int| 0 <= m < j - i ==> !is_space(#[trigger] rest[m]));
                assert(j - i == rest.len() || is_space(rest[j - i]));
                lemma_words_take_word(rest, j - i);
                assert(rest.subrange(0, j - i) =~= c@.subrange(i as int, j as int));
                assert(rest.subrange(j - i, rest.len() as int) =~= c@.subrange(
                    j as int,
                    c@.len() as int,
                ));
            }
            let ghost prev = r@;
            r.push(word);
            proof {
                assert(r@.map_values(|w: Vec<u8>| w@) =~= prev.map_values(|w: Vec<u8>| w@)
                    + seq![c@.subrange(i as int, j as int)]);
            }
            i = j;
        }
    }
    proof {
        assert(words_of(c@.subrange(c@.len() as int, c@.len() as int)) =~= Seq::<Seq<u8>>::empty());
        assert(r@.map_values(|w: Vec<u8>| w@) =~= words_of(c@));
    }
    r
}

/// The length of the run of bytes before the first `sep` in `c`.
pub open spec fn seg_len(c: Seq<u8>, sep: u8) -> nat
    decreases c.len(),
{
    if c.len() > 0 && c[0] != sep {
        1 + seg_len(c.drop_first(), sep)
    } else {
        0
    }
}

proof fn lemma_seg_len_bound(c: Seq<u8>, sep: u8)
    ensures
        seg_len(c, sep) <= c.len(),
        seg_len(c, sep) < c.len() ==> c[seg_len(c, sep) as int] == sep,
        forall|j: int| 0 <= j < seg_len(c, sep) ==> c[j] != sep,
    decreases c.len(),
{
    if c.len() > 0 && c[0] != sep {
        let d = c.drop_first();
        lemma_seg_len_bound(d, sep);
        assert forall|j: int| 0 <= j < seg_len(c, sep) implies c[j] != sep by {
            if j > 0 {
                assert(d[j - 1] != sep);
            }
        }
    }
}

/// `c` split at every `sep`, keeping empty segments: splitting empty text
/// yields one empty segment.
pub open spec fn split_by(c: Seq<u8>, sep: u8) -> Seq<Seq<u8>>
    decreases c.len(),
{
    let k = if seg_len(c, sep) <= c.len() {
        seg_len(c, sep) as int
    } else {
        c.len() as int
    };
    if k == c.len() {
        seq![c]
    } else {
        seq![c.subrange(0, k)] + split_by(c.subrange(k + 1, c.len() as int), sep)
    }
}

proof fn lemma_split_by_take(c: Seq<u8>, sep: u8, k: int)
    requires
        0 <= k <= c.len(),
        forall|j: int| 0 <= j < k ==> c[j] != sep,
        k == c.len() || c[k] == sep,
    ensures
        k == c.len() ==> split_by(c, sep) == seq![c],
        k < c.len() ==> split_by(c, sep) == seq![c.subrange(0, k)] + split_by(
            c.subrange(k + 1, c.len() as int),
            sep,
        ),
{
    lemma_seg_len_bound(c, sep);
    assert(seg_len(c, sep) == k) by {
        if seg_len(c, sep) < k {
            assert(c[seg_len(c, sep) as int] == sep);
        } else if k < seg_len(c, sep) {
            assert(c[k] != sep);
        }
    }
    if k == c.len() {
        assert(c.subrange(0, k) =~= c);
    }
}

/// `c` split at every `sep`, as owned byte strings.
pub fn split_on(c: &Vec<u8>, sep: u8) -> (r: Vec<Vec<u8>>)
    ensures
        r@.map_values(|s: Vec<u8>| s@) == split_by(c@, sep),
        r@.len() >= 1,
{
    let mut r: Vec<Vec<u8>> = Vec::new();
    let mut i: usize = 0;
    proof {
        assert(c@.subrange(0, c@.len() as int) =~= c@);
    }
    loop
        invariant_except_break
            i <= c@.len(),
            split_by(c@, sep) == r@.map_values(|s: Vec<u8>| s@) + split_by(
                c@.subrange(i as int, c@.len() as int),
                sep,
            ),
        ensures
            r@.map_values(|s: Vec<u8>| s@) == split_by(c@, sep),
            r@.len() >= 1,
        decreases c@.len() + 1 - i,
    {
        let ghost rest = c@.subrange(i as int, c@.len() as int);
        let mut j: usize = i;
        while j < c.len() && c[j] != sep
            invariant
                i <= j <= c@.len(),
                forall|m: int| i <= m < j ==> c@[m] != sep,
            decreases c.len() - j,
        {
            j += 1;
        }
        let seg = sub_bytes(c, i, j);
        proof {
            assert(forall|m: int| 0 <= m < j - i ==> #[trigger] rest[m] == c@[i + m]);
            lemma_split_by_take(rest, sep, j - i);
            assert(rest.subrange(0, j - i) =~= c@.subrange(i as int, j as int));
            if j < c.len() {
                assert(rest.subrange(j - i + 1, rest.len() as int) =~= c@.subrange(
                    j + 1,
                    c@.len() as int,
                ));
            }
        }
        let ghost prev = r@;
        r.push(seg);
        proof {
            assert(r@.map_values(|s: Vec<u8>| s@) =~= prev.map_values(|s: Vec<u8>| s@).push(seg@));
        }
        if j >= c.len() {
            proof {
                assert(rest =~= c@.subrange(i as int, j as int));
                assert(split_by(rest, sep) == seq![rest]);
                assert(r@.map_values(|s: Vec<u8>| s@) =~= split_by(c@, sep));
            }
            break ;
        }
        i = j + 1;
    }
    r
}

/// A text line as `str::lines` yields it: without a trailing carriage
/// return.
pub open spec fn strip_cr(l: Seq<u8>) -> Seq<u8> {
    if l.len() > 0 && l.last() == 13 {
        l.drop_last()
    } else {
        l
    }
}

/// The lines of `c`: the newline-separated segments, each without a
/// trailing carriage return, with no final empty segment for text that ends
/// in a newline.
pub open spec fn lines_of(c: Seq<u8>) -> Seq<Seq<u8>> {
    let segs = split_by(c, 10);
    let segs2 = if segs.len() > 0 && segs.last().len() == 0 {
        segs.drop_last()
    } else {
        segs
    };
    segs2.map_values(|l: Seq<u8>| strip_cr(l))
}

/// The lines of `c`, as owned byte strings.
pub fn split_lines(c: &Vec<u8>) -> (r: Vec<Vec<u8>>)
    ensures
        r@.map_values(|s: Vec<u8>| s@) == lines_of(c@),
{
    let mut segs = split_on(c, 10);
    if segs.len() > 0 && segs[segs.len() - 1].len() == 0 {
        let ghost pre = segs@;
        segs.pop();
        proof {
            assert(segs@.map_values(|s: Vec<u8>| s@) =~= pre.map_values(
                |s: Vec<u8>| s@,
            ).drop_last());
        }
    }
    let mut r: Vec<Vec<u8>> = Vec::new();
    let mut i: usize = 0;
    while i < segs.len()
        invariant
            i <= segs@.len(),
            r@.len() == i,
            forall|m: int| 0 <= m < i ==> (#[trigger] r@[m])@ == strip_cr(segs@[m]@),
        decreases segs.len() - i,
    {
        let s = &segs[i];
        let line = if s.len() > 0 && s[s.len() - 1] == 13 {
            sub_bytes(s, 0, s.len() - 1)
        } else {
            copy_bytes(s)
        };
        proof {
            if s@.len() > 0 && s@.last() == 13 {
                assert(s@.subrange(0, s@.len() - 1) =~= s@.drop_last());
            }
            assert(line@ == strip_cr(s@));
        }
        r.push(line);
        i += 1;
    }
    proof {
        assert(r@.map_values(|s2: Vec<u8>| s2@) =~= lines_of(c@));
    }
    r
}

/// The decimal digits of `n`, most significant first.
pub open spec fn decimal(n: int) -> Seq<u8>
    decreases n,
{
    if n < 10 {
        seq![(48 + if n >= 0 { n } else { 0 }) as u8]
    } else {
        decimal(n / 10) + seq![(48 + n % 10) as u8]
    }
}

/// `n` written in decimal.
pub fn format_u64(n: u64) -> (r: Vec<u8>)
    ensures
        r@ == decimal(n as int),
{
    let mut digits: Vec<u8> = Vec::new();
    let mut m: u64 = n;
    loop
        invariant_except_break
            decimal(n as int) == decimal(m as int) + digits@.reverse(),
        ensures
            decimal(n as int) == digits@.reverse(),
        decreases m,
    {
        let ghost prev = digits@;
        let d: u8 = (48 + (m % 10)) as u8;
        digits.push(d);
        proof {
            assert(prev.push(d).reverse() =~= seq![d] + prev.reverse());
        }
        if m < 10 {
            break ;
        }
        m = m / 10;
    }
    let mut r: Vec<u8> = Vec::new();
    let mut k: usize = digits.len();
    while k > 0
        invariant
            k <= digits@.len(),
            r@ =~= digits@.reverse().subrange(0, digits@.len() - k),
        decreases k,
    {
        k -= 1;
        r.push(digits[k]);
        proof {
            assert(r@ =~= digits@.reverse().subrange(0, digits@.len() - k));
        }
    }
    proof {
        assert(r@ =~= digits@.reverse());
    }
    r
}

/// Whether `b` is a UTF-8 continuation byte.
pub open spec fn is_continuation(b: u8) -> bool {
    128 <= b < 192
}

/// The number of characters of `c`: for UTF-8 text, each character
/// contributes exactly one byte that is not a continuation byte.
pub open spec fn char_count(c: Seq<u8>) -> int
    decreases c.len(),
{
    if c.len() == 0 {
        0
    } else {
        char_count(c.drop_last()) + if is_continuation(c.last()) {
            0int
        } else {
            1int
        }
    }
}

proof fn lemma_char_count_bound(c: Seq<u8>)
    ensures
        0 <= char_count(c) <= c.len(),
    decreases c.len(),
{
    if c.len() > 0 {
        lemma_char_count_bound(c.drop_last());
    }
}

/// The number of characters of `c`, under the counting rule of
/// [`char_count`].
pub fn count_chars(c: &Vec<u8>) -> (r: usize)
    ensures
        r == char_count(c@),
{
    let mut n: usize = 0;
    let mut i: usize = 0;
    while i < c.len()
        invariant
            i <= c@.len(),
            0 <= n <= i,
            n == char_count(c@.subrange(0, i as int)),
        decreases c.len() - i,
    {
        proof {
            assert(c@.subrange(0, i + 1).drop_last() =~= c@.subrange(0, i as int));
            assert(c@.subrange(0, i + 1).last() == c@[i as int]);
        }
        let b = c[i];
        if b < 128 || b >= 192 {
            n += 1;
        }
        i += 1;
    }
    assert(c@.subrange(0, c@.len() as int) =~= c@);
    n
}

/// The position of the last occurrence of `b` in `c`, or `-1` if there is
/// none.
pub open spec fn last_occurrence(c: Seq<u8>, b: u8) -> int
    decreases c.len(),
{
    if c.len() == 0 {
        -1
    } else if c.last() == b {
        c.len() - 1
    } else {
        last_occurrence(c.drop_last(), b)
    }
}

proof fn lemma_last_occurrence_found(c: Seq<u8>, b: u8, p: int)
    requires
        0 <= p < c.len(),
        c[p] == b,
        forall|j: int| p < j < c.len() ==> c[j] != b,
    ensures
        last_occurrence(c, b) == p,
    decreases c.len(),
{
    if p < c.len() - 1 {
        assert(c.drop_last()[p] == b);
        lemma_last_occurrence_found(c.drop_last(), b, p);
    }
}

proof fn lemma_last_occurrence_none(c: Seq<u8>, b: u8)
    requires
        forall|j: int| 0 <= j < c.len() ==> c[j] != b,
    ensures
        last_occurrence(c, b) == -1,
    decreases c.len(),
{
    if c.len() > 0 {
        lemma_last_occurrence_none(c.drop_last(), b);
    }
}

/// The position of the last occurrence of `b` in `c`, if any.
pub fn rfind_byte(c: &Vec<u8>, b: u8) -> (r: Option<usize>)
    ensures
        match r {
            Some(p) => p < c@.len() && last_occurrence(c@, b) == p,
            None => last_occurrence(c@, b) == -1,
        },
{
    let mut i: usize = c.len();
    while i > 0
        invariant
            i <= c@.len(),
            forall|j: int| i <= j < c@.len() ==> c@[j] != b,
        decreases i,
    {
        i -= 1;
        if c[i] == b {
            proof {
                lemma_last_occurrence_found(c@, b, i as int);
            }
            return Some(i);
        }
    }
    proof {
        lemma_last_occurrence_none(c@, b);
    }
    None
}

} // verus!
