//! Byte-level text utilities: the virtual files and registry values the
//! backends read are parsed as byte sequences by the functions here.

use vstd::prelude::*;

verus! {

/// ASCII whitespace as the parsers treat it: space, tab, carriage return,
/// line feed.
pub open spec fn is_ws(b: u8) -> bool {
    b == 32 || b == 9 || b == 13 || b == 10
}

/// Executable check for `is_ws`.
pub fn byte_is_ws(b: u8) -> (r: bool)
    ensures
        r == is_ws(b),
{
    b == 32 || b == 9 || b == 13 || b == 10
}

/// ASCII decimal digit.
pub open spec fn is_digit(b: u8) -> bool {
    48 <= b <= 57
}

/// Every byte of the sequence is a decimal digit.
pub open spec fn all_digits(s: Seq<u8>) -> bool {
    forall|i: int| 0 <= i < s.len() ==> is_digit(#[trigger] s[i])
}

/// The value of a decimal digit string, most significant digit first.
pub open spec fn dec_value(s: Seq<u8>) -> int
    decreases s.len(),
{
    if s.len() == 0 {
        0
    } else {
        dec_value(s.drop_last()) * 10 + (s.last() - 48)
    }
}

/// A digit string's value is non-negative.
pub proof fn lemma_dec_value_nonneg(s: Seq<u8>)
    requires
        all_digits(s),
    ensures
        dec_value(s) >= 0,
    decreases s.len(),
{
    if s.len() > 0 {
        assert(all_digits(s.drop_last()));
        lemma_dec_value_nonneg(s.drop_last());
    }
}

/// The value of a digit string is at least the value of any prefix.
pub proof fn lemma_dec_value_prefix(s: Seq<u8>, i: int)
    requires
        all_digits(s),
        0 <= i <= s.len(),
    ensures
        dec_value(s.take(i)) <= dec_value(s),
    decreases s.len() - i,
{
    if i < s.len() {
        lemma_dec_value_prefix(s, i + 1);
        let t = s.take(i + 1);
        assert(t.drop_last() =~= s.take(i));
        assert(all_digits(s.take(i)));
        lemma_dec_value_nonneg(s.take(i));
        assert(dec_value(t) == dec_value(s.take(i)) * 10 + (s[i] - 48));
    } else {
        assert(s.take(i) =~= s);
    }
}

/// The numeric value of a decimal byte string, or zero when the string is
/// empty, is not all digits, or does not fit in 64 bits. Mirrors treating
/// an unparsable counter field as absent.
pub open spec fn spec_parse_u64(s: Seq<u8>) -> int {
    if s.len() > 0 && all_digits(s) && dec_value(s) <= u64::MAX {
        dec_value(s)
    } else {
        0
    }
}

/// Parses a decimal byte string into a 64-bit counter.
pub fn parse_u64_dec(s: &[u8]) -> (r: u64)
    ensures
        r == spec_parse_u64(s@),
{
    let n = s.len();
    if n == 0 {
        return 0;
    }
    let mut acc: u128 = 0;
    let mut i: usize = 0;
    while i < n
        invariant
            0 < n == s@.len(),
            i <= n,
            all_digits(s@.take(i as int)),
            acc == dec_value(s@.take(i as int)),
            acc <= u64::MAX,
        decreases n - i,
    {
        let b = s[i];
        if b < 48 || b > 57 {
            assert(!all_digits(s@)) by {
                assert(!is_digit(s@[i as int]));
            }
            return 0;
        }
        proof {
            assert(s@.take(i + 1).drop_last() =~= s@.take(i as int));
        }
        let next: u128 = acc * 10 + (b - 48) as u128;
        if next > u64::MAX as u128 {
            proof {
                if all_digits(s@) {
                    lemma_dec_value_prefix(s@, i + 1);
                }
            }
            return 0;
        }
        acc = next;
        i += 1;
    }
    proof {
        assert(s@.take(n as int) =~= s@);
    }
    acc as u64
}

/// The value of a decimal byte string as a process identifier: present
/// exactly when the string is a non-empty digit string whose value fits
/// in 32 bits.
pub open spec fn spec_parse_u32(s: Seq<u8>) -> Option<u32> {
    if s.len() > 0 && all_digits(s) && dec_value(s) <= u32::MAX {
        Option::Some(dec_value(s) as u32)
    } else {
        Option::None
    }
}

/// Parses a decimal byte string into a 32-bit identifier.
pub fn parse_u32_dec(s: &[u8]) -> (r: Option<u32>)
    ensures
        r == spec_parse_u32(s@),
{
    let n = s.len();
    if n == 0 {
        return Option::None;
    }
    let mut acc: u64 = 0;
    let mut i: usize = 0;
    while i < n
        invariant
            0 < n == s@.len(),
            i <= n,
            all_digits(s@.take(i as int)),
            acc == dec_value(s@.take(i as int)),
            acc <= u32::MAX,
        decreases n - i,
    {
        let b = s[i];
        if b < 48 || b > 57 {
            assert(!all_digits(s@)) by {
                assert(!is_digit(s@[i as int]));
            }
            return Option::None;
        }
        proof {
            assert(s@.take(i + 1).drop_last() =~= s@.take(i as int));
        }
        let next: u64 = acc * 10 + (b - 48) as u64;
        if next > u32::MAX as u64 {
            proof {
                if all_digits(s@) {
                    lemma_dec_value_prefix(s@, i + 1);
                }
            }
            return Option::None;
        }
        acc = next;
        i += 1;
    }
    proof {
        assert(s@.take(n as int) =~= s@);
    }
    Option::Some(acc as u32)
}

/// The views of a vector of byte vectors.
pub open spec fn views_of(s: Seq<Vec<u8>>) -> Seq<Seq<u8>> {
    s.map(|_i: int, v: Vec<u8>| v@)
}

/// The pieces of `s` between occurrences of `sep`, in order, empties
/// kept; an empty input has one empty piece.
pub open spec fn spec_split(s: Seq<u8>, sep: u8) -> Seq<Seq<u8>>
    decreases s.len(),
{
    if s.len() == 0 {
        seq![Seq::<u8>::empty()]
    } else {
        let rest = spec_split(s.drop_last(), sep);
        if s.last() == sep {
            rest + seq![Seq::<u8>::empty()]
        } else {
            rest.update(rest.len() - 1, rest.last().push(s.last()))
        }
    }
}

/// A split has at least one piece.
pub proof fn lemma_split_nonempty(s: Seq<u8>, sep: u8)
    ensures
        spec_split(s, sep).len() >= 1,
    decreases s.len(),
{
    if s.len() > 0 {
        lemma_split_nonempty(s.drop_last(), sep);
    }
}

/// Splits a byte slice on a separator byte, empties kept.
pub fn split_bytes(s: &[u8], sep: u8) -> (r: Vec<Vec<u8>>)
    ensures
        views_of(r@) == spec_split(s@, sep),
{
    let n = s.len();
    let mut done: Vec<Vec<u8>> = Vec::new();
    let mut cur: Vec<u8> = Vec::new();
    let mut i: usize = 0;
    while i < n
        invariant
            i <= n == s@.len(),
            spec_split(s@.take(i as int), sep) == views_of(done@) + seq![cur@],
        decreases n - i,
    {
        proof {
            assert(s@.take(i + 1).drop_last() =~= s@.take(i as int));
            assert(s@.take(i + 1).last() == s@[i as int]);
        }
        let b = s[i];
        if b == sep {
            done.push(cur);
            cur = Vec::new();
            proof {
                assert(views_of(done@) =~= views_of(done@.drop_last()) + seq![
                    done@.last()@,
                ]);
                assert(spec_split(s@.take(i + 1), sep) =~= views_of(done@) + seq![cur@]);
            }
        } else {
            let ghost old_cur = cur@;
            cur.push(b);
            proof {
                let prev = views_of(done@) + seq![old_cur];
                assert(prev.last() == old_cur);
                assert(prev.update(prev.len() - 1, old_cur.push(b)) =~= views_of(done@) + seq![
                    cur@,
                ]);
            }
        }
        i += 1;
    }
    proof {
        assert(s@.take(n as int) =~= s@);
    }
    done.push(cur);
    proof {
        assert(views_of(done@) =~= views_of(done@.drop_last()) + seq![done@.last()@]);
    }
    done
}

/// The maximal whitespace-free words of `s`, in order.
pub open spec fn spec_fields(s: Seq<u8>) -> Seq<Seq<u8>>
    decreases s.len(),
{
    if s.len() == 0 {
        Seq::empty()
    } else {
        let rest = spec_fields(s.drop_last());
        if is_ws(s.last()) {
            rest
        } else if s.len() >= 2 && !is_ws(s[s.len() - 2]) {
            rest.update(rest.len() - 1, rest.last().push(s.last()))
        } else {
            rest + seq![seq![s.last()]]
        }
    }
}

/// Splits a byte slice into its whitespace-separated words.
pub fn fields(s: &[u8]) -> (r: Vec<Vec<u8>>)
    ensures
        views_of(r@) == spec_fields(s@),
{
    let n = s.len();
    let mut done: Vec<Vec<u8>> = Vec::new();
    let mut cur: Vec<u8> = Vec::new();
    let mut i: usize = 0;
    while i < n
        invariant
            i <= n == s@.len(),
            cur@.len() == 0 <==> (i == 0 || is_ws(s@[i - 1])),
            cur@.len() == 0 ==> spec_fields(s@.take(i as int)) == views_of(done@),
            cur@.len() > 0 ==> spec_fields(s@.take(i as int)) == views_of(done@) + seq![cur@],
        decreases n - i,
    {
        proof {
            assert(s@.take(i + 1).drop_last() =~= s@.take(i as int));
            assert(s@.take(i + 1).last() == s@[i as int]);
        }
        let b = s[i];
        if byte_is_ws(b) {
            if cur.len() > 0 {
                done.push(cur);
                cur = Vec::new();
                proof {
                    assert(views_of(done@) =~= views_of(done@.drop_last()) + seq![
                        done@.last()@,
                    ]);
                }
            }
        } else {
            if cur.len() == 0 {
                cur.push(b);
                proof {
                    assert(cur@ =~= seq![b]);
                    assert(spec_fields(s@.take(i + 1)) =~= views_of(done@) + seq![cur@]);
                }
            } else {
                let ghost old_cur = cur@;
                cur.push(b);
                proof {
                    assert(i > 0 && !is_ws(s@[i - 1]));
                    assert(s@.take(i + 1)[i as int - 1] == s@[i - 1]);
                    let prev = views_of(done@) + seq![old_cur];
                    assert(prev.last() == old_cur);
                    assert(prev.update(prev.len() - 1, old_cur.push(b)) =~= views_of(done@)
                        + seq![cur@]);
                }
            }
        }
        i += 1;
    }
    proof {
        assert(s@.take(n as int) =~= s@);
    }
    if cur.len() > 0 {
        done.push(cur);
        proof {
            assert(views_of(done@) =~= views_of(done@.drop_last()) + seq![done@.last()@]);
        }
    }
    done
}

/// Whether two byte slices hold the same bytes.
pub fn bytes_eq(a: &[u8], b: &[u8]) -> (r: bool)
    ensures
        r == (a@ == b@),
{
    let n = a.len();
    if b.len() != n {
        return false;
    }
    let mut i: usize = 0;
    while i < n
        invariant
            i <= n == a@.len(),
            b@.len() == n,
            forall|j: int| 0 <= j < i ==> a@[j] == b@[j],
        decreases n - i,
    {
        if a[i] != b[i] {
            return false;
        }
        i += 1;
    }
    proof {
        assert(a@ =~= b@);
    }
    true
}

/// Whether `s` begins with `pre`.
pub fn starts_with(s: &[u8], pre: &[u8]) -> (r: bool)
    ensures
        r == (s@.len() >= pre@.len() && s@.take(pre@.len() as int) == pre@),
{
    let m = pre.len();
    if s.len() < m {
        proof {
            assert(s@.len() < pre@.len());
        }
        return false;
    }
    let mut i: usize = 0;
    while i < m
        invariant
            i <= m == pre@.len(),
            s@.len() >= m,
            forall|j: int| 0 <= j < i ==> s@[j] == pre@[j],
        decreases m - i,
    {
        if s[i] != pre[i] {
            assert(s@.take(m as int)[i as int] != pre@[i as int]);
            return false;
        }
        i += 1;
    }
    proof {
        assert(s@.take(m as int) =~= pre@);
    }
    true
}

/// `s` without trailing whitespace.
pub open spec fn spec_trim_end(s: Seq<u8>) -> Seq<u8>
    decreases s.len(),
{
    if s.len() > 0 && is_ws(s.last()) {
        spec_trim_end(s.drop_last())
    } else {
        s
    }
}

/// `s` without leading whitespace.
pub open spec fn spec_trim_start(s: Seq<u8>) -> Seq<u8>
    decreases s.len(),
{
    if s.len() > 0 && is_ws(s[0]) {
        spec_trim_start(s.drop_first())
    } else {
        s
    }
}

/// `s` without leading or trailing whitespace.
pub open spec fn spec_trim(s: Seq<u8>) -> Seq<u8> {
    spec_trim_start(spec_trim_end(s))
}

/// Trimming the end keeps a whitespace-free prefix intact.
proof fn lemma_trim_end_take(s: Seq<u8>, e: int)
    requires
        0 <= e <= s.len(),
        forall|j: int| e <= j < s.len() ==> is_ws(#[trigger] s[j]),
        e == 0 || !is_ws(s[e - 1]),
    ensures
        spec_trim_end(s) == s.take(e),
    decreases s.len(),
{
    if s.len() > e {
        lemma_trim_end_take(s.drop_last(), e);
        assert(s.drop_last() =~= s.take(s.len() - 1));
        assert(s.take(s.len() - 1).take(e) =~= s.take(e));
    } else {
        assert(s.take(e) =~= s);
    }
}

/// Trimming the start drops exactly the leading whitespace run.
proof fn lemma_trim_start_skip(s: Seq<u8>, k: int)
    requires
        0 <= k <= s.len(),
        forall|j: int| 0 <= j < k ==> is_ws(#[trigger] s[j]),
        k == s.len() || !is_ws(s[k]),
    ensures
        spec_trim_start(s) == s.skip(k),
    decreases k,
{
    if k > 0 {
        lemma_trim_start_skip(s.drop_first(), k - 1);
        assert(s.drop_first().skip(k - 1) =~= s.skip(k));
    } else {
        assert(s.skip(0) =~= s);
    }
}

/// Copies `s` with leading and trailing whitespace removed.
pub fn trim(s: &[u8]) -> (r: Vec<u8>)
    ensures
        r@ == spec_trim(s@),
{
    let n = s.len();
    let mut e: usize = n;
    while e > 0 && byte_is_ws(s[e - 1])
        invariant
            e <= n == s@.len(),
            forall|j: int| e <= j < n ==> is_ws(#[trigger] s@[j]),
        decreases e,
    {
        e -= 1;
    }
    proof {
        lemma_trim_end_take(s@, e as int);
    }
    let mut b: usize = 0;
    while b < e && byte_is_ws(s[b])
        invariant
            b <= e <= n == s@.len(),
            forall|j: int| e <= j < n ==> is_ws(#[trigger] s@[j]),
            forall|j: int| 0 <= j < b ==> is_ws(#[trigger] s@[j]),
        decreases e - b,
    {
        b += 1;
    }
    let ghost te = s@.take(e as int);
    proof {
        assert(forall|j: int| 0 <= j < b ==> is_ws(#[trigger] te[j]));
        assert(b == te.len() || !is_ws(te[b as int]));
        lemma_trim_start_skip(te, b as int);
    }
    let mut r: Vec<u8> = Vec::new();
    let mut i: usize = b;
    while i < e
        invariant
            b <= i <= e <= n == s@.len(),
            r@ == s@.subrange(b as int, i as int),
        decreases e - i,
    {
        r.push(s[i]);
        proof {
            assert(s@.subrange(b as int, i as int).push(s@[i as int]) =~= s@.subrange(
                b as int,
                i + 1,
            ));
        }
        i += 1;
    }
    proof {
        assert(te.skip(b as int) =~= s@.subrange(b as int, e as int));
    }
    r
}

/// The parts of `s` before and after the first occurrence of `sep`, or
/// `None` when the separator does not occur.
pub open spec fn spec_split_once(s: Seq<u8>, sep: u8) -> Option<(Seq<u8>, Seq<u8>)>
    decreases s.len(),
{
    if s.len() == 0 {
        Option::None
    } else if s[0] == sep {
        Option::Some((Seq::empty(), s.drop_first()))
    } else {
        match spec_split_once(s.drop_first(), sep) {
            Option::None => Option::None,
            Option::Some(p) => Option::Some((seq![s[0]] + p.0, p.1)),
        }
    }
}

/// When the first separator stands at `i`, the split is the prefix
/// before it and the suffix after it.
proof fn lemma_split_once_at(s: Seq<u8>, sep: u8, i: int)
    requires
        0 <= i < s.len(),
        s[i] == sep,
        forall|j: int| 0 <= j < i ==> s[j] != sep,
    ensures
        spec_split_once(s, sep) == Option::Some((s.take(i), s.skip(i + 1))),
    decreases i,
{
    if i == 0 {
        assert(s.take(0) =~= Seq::<u8>::empty());
        assert(s.skip(1) =~= s.drop_first());
    } else {
        lemma_split_once_at(s.drop_first(), sep, i - 1);
        assert(seq![s[0]] + s.drop_first().take(i - 1) =~= s.take(i));
        assert(s.drop_first().skip(i) =~= s.skip(i + 1));
    }
}

/// Without the separator anywhere, there is no split.
proof fn lemma_split_once_none(s: Seq<u8>, sep: u8)
    requires
        forall|j: int| 0 <= j < s.len() ==> s[j] != sep,
    ensures
        spec_split_once(s, sep) is None,
    decreases s.len(),
{
    if s.len() > 0 {
        lemma_split_once_none(s.drop_first(), sep);
    }
}

/// Copies the byte range `[from, to)` of `s`.
pub fn subrange_vec(s: &[u8], from: usize, to: usize) -> (r: Vec<u8>)
    requires
        from <= to <= s@.len(),
    ensures
        r@ == s@.subrange(from as int, to as int),
{
    let mut r: Vec<u8> = Vec::new();
    let mut i: usize = from;
    while i < to
        invariant
            from <= i <= to <= s@.len(),
            r@ == s@.subrange(from as int, i as int),
        decreases to - i,
    {
        r.push(s[i]);
        proof {
            assert(s@.subrange(from as int, i as int).push(s@[i as int]) =~= s@.subrange(
                from as int,
                i + 1,
            ));
        }
        i += 1;
    }
    r
}

/// Copies `s` with trailing whitespace removed.
pub fn trim_end(s: &[u8]) -> (r: Vec<u8>)
    ensures
        r@ == spec_trim_end(s@),
{
    let n = s.len();
    let mut e: usize = n;
    while e > 0 && byte_is_ws(s[e - 1])
        invariant
            e <= n == s@.len(),
            forall|j: int| e <= j < n ==> is_ws(#[trigger] s@[j]),
        decreases e,
    {
        e -= 1;
    }
    proof {
        lemma_trim_end_take(s@, e as int);
        assert(s@.subrange(0, e as int) =~= s@.take(e as int));
    }
    subrange_vec(s, 0, e)
}

/// `s` without trailing occurrences of the byte `c`.
pub open spec fn spec_trim_byte_end(s: Seq<u8>, c: u8) -> Seq<u8>
    decreases s.len(),
{
    if s.len() > 0 && s.last() == c {
        spec_trim_byte_end(s.drop_last(), c)
    } else {
        s
    }
}

/// `s` without leading occurrences of the byte `c`.
pub open spec fn spec_trim_byte_start(s: Seq<u8>, c: u8) -> Seq<u8>
    decreases s.len(),
{
    if s.len() > 0 && s[0] == c {
        spec_trim_byte_start(s.drop_first(), c)
    } else {
        s
    }
}

/// `s` without leading or trailing occurrences of the byte `c`.
pub open spec fn spec_trim_byte(s: Seq<u8>, c: u8) -> Seq<u8> {
    spec_trim_byte_start(spec_trim_byte_end(s, c), c)
}

/// Trimming a byte from the end keeps a prefix free of it intact.
proof fn lemma_trim_byte_end_take(s: Seq<u8>, c: u8, e: int)
    requires
        0 <= e <= s.len(),
        forall|j: int| e <= j < s.len() ==> #[trigger] s[j] == c,
        e == 0 || s[e - 1] != c,
    ensures
        spec_trim_byte_end(s, c) == s.take(e),
    decreases s.len(),
{
    if s.len() > e {
        lemma_trim_byte_end_take(s.drop_last(), c, e);
        assert(s.drop_last() =~= s.take(s.len() - 1));
        assert(s.take(s.len() - 1).take(e) =~= s.take(e));
    } else {
        assert(s.take(e) =~= s);
    }
}

/// Trimming a byte from the start drops exactly its leading run.
proof fn lemma_trim_byte_start_skip(s: Seq<u8>, c: u8, k: int)
    requires
        0 <= k <= s.len(),
        forall|j: int| 0 <= j < k ==> #[trigger] s[j] == c,
        k == s.len() || s[k] != c,
    ensures
        spec_trim_byte_start(s, c) == s.skip(k),
    decreases k,
{
    if k > 0 {
        lemma_trim_byte_start_skip(s.drop_first(), c, k - 1);
        assert(s.drop_first().skip(k - 1) =~= s.skip(k));
    } else {
        assert(s.skip(0) =~= s);
    }
}

/// Copies `s` with leading and trailing occurrences of `c` removed.
pub fn trim_byte(s: &[u8], c: u8) -> (r: Vec<u8>)
    ensures
        r@ == spec_trim_byte(s@, c),
{
    let n = s.len();
    let mut e: usize = n;
    while e > 0 && s[e - 1] == c
        invariant
            e <= n == s@.len(),
            forall|j: int| e <= j < n ==> #[trigger] s@[j] == c,
        decreases e,
    {
        e -= 1;
    }
    proof {
        lemma_trim_byte_end_take(s@, c, e as int);
    }
    let mut b: usize = 0;
    while b < e && s[b] == c
        invariant
            b <= e <= n == s@.len(),
            forall|j: int| e <= j < n ==> #[trigger] s@[j] == c,
            forall|j: int| 0 <= j < b ==> #[trigger] s@[j] == c,
        decreases e - b,
    {
        b += 1;
    }
    let ghost te = s@.take(e as int);
    proof {
        assert(forall|j: int| 0 <= j < b ==> #[trigger] te[j] == c);
        assert(b == te.len() || te[b as int] != c);
        lemma_trim_byte_start_skip(te, c, b as int);
        assert(te.skip(b as int) =~= s@.subrange(b as int, e as int));
    }
    subrange_vec(s, b, e)
}

/// Splits at the first occurrence of `sep`: the part before and the part
/// after. `None` when the separator does not occur.
pub fn split_once(s: &[u8], sep: u8) -> (r: Option<(Vec<u8>, Vec<u8>)>)
    ensures
        match r {
            Option::Some(p) => spec_split_once(s@, sep) == Option::Some((p.0@, p.1@)),
            Option::None => spec_split_once(s@, sep) is None,
        },
{
    let n = s.len();
    let mut i: usize = 0;
    while i < n
        invariant
            i <= n == s@.len(),
            forall|j: int| 0 <= j < i ==> s@[j] != sep,
        decreases n - i,
    {
        if s[i] == sep {
            let mut a: Vec<u8> = Vec::new();
            let mut j: usize = 0;
            while j < i
                invariant
                    j <= i < n == s@.len(),
                    a@ == s@.subrange(0, j as int),
                decreases i - j,
            {
                a.push(s[j]);
                proof {
                    assert(s@.subrange(0, j as int).push(s@[j as int]) =~= s@.subrange(0, j + 1));
                }
                j += 1;
            }
            let mut b: Vec<u8> = Vec::new();
            let mut k: usize = i + 1;
            while k < n
                invariant
                    i < k <= n == s@.len(),
                    b@ == s@.subrange(i + 1, k as int),
                decreases n - k,
            {
                b.push(s[k]);
                proof {
                    assert(s@.subrange(i + 1, k as int).push(s@[k as int]) =~= s@.subrange(
                        i + 1,
                        k + 1,
                    ));
                }
                k += 1;
            }
            proof {
                lemma_split_once_at(s@, sep, i as int);
                assert(a@ =~= s@.take(i as int));
                assert(b@ =~= s@.skip(i + 1));
            }
            return Option::Some((a, b));
        }
        i += 1;
    }
    proof {
        lemma_split_once_none(s@, sep);
    }
    Option::None
}

/// Whether every byte of the sequence is plain ASCII.
pub open spec fn ascii_seq(s: Seq<u8>) -> bool {
    forall|i: int| 0 <= i < s.len() ==> #[trigger] s[i] < 128
}

/// The characters an ASCII byte sequence spells.
pub open spec fn chars_of(s: Seq<u8>) -> Seq<char> {
    s.map(|_i: int, b: u8| b as char)
}

/// Relies on `String::from_utf8_lossy`: bytes that are plain ASCII decode
/// to exactly those characters. For other inputs the result is some
/// string and nothing more is claimed of it.
#[verifier::external_body]
pub fn lossy_string(b: &[u8]) -> (r: String)
    ensures
        ascii_seq(b@) ==> r@ == chars_of(b@),
{
    String::from_utf8_lossy(b).into_owned()
}

} // verus!
