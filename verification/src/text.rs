//! Text helpers shared by the wire formats: decimal rendering, character
//! access to strings, and splitting.
use vstd::prelude::*;
use vstd::string::StringSliceAdditionalSpecFns;

verus! {

/// The ten decimal digit characters, in order.
pub open spec fn digit_chars() -> Seq<char> {
    seq!['0', '1', '2', '3', '4', '5', '6', '7', '8', '9']
}

/// Decimal rendering of a natural number, most significant digit first and
/// without leading zeros (the way `to_string` prints an unsigned integer).
pub open spec fn decimal(n: nat) -> Seq<char>
    decreases n,
{
    if n < 10 {
        seq![digit_chars()[n as int]]
    } else {
        decimal(n / 10).push(digit_chars()[(n % 10) as int])
    }
}

/// Renders `n` in decimal.
pub fn decimal_string(n: u128) -> (s: String)
    ensures
        s@ == decimal(n as nat),
    decreases n,
{
    let digits = "0123456789";
    proof {
        reveal_strlit("0123456789");
    }
    assert(digits@ =~= digit_chars());
    let d: usize = (n % 10) as usize;
    let last = digits.substring_char(d, d + 1);
    assert(last@ =~= seq![digit_chars()[d as int]]);
    if n < 10 {
        String::from_str(last)
    } else {
        let mut s = decimal_string(n / 10);
        s.append(last);
        assert(s@ =~= decimal(n as nat));
        s
    }
}

} // verus!

verus! {

/// The characters of `s`, in order.
pub fn chars_of(s: &str) -> (v: Vec<char>)
    ensures
        v@ == s@,
{
    let mut v: Vec<char> = Vec::new();
    for c in it: s.chars()
        invariant
            v.len() == it.index(),
            forall|j: int| 0 <= j < v.len() ==> v@[j] == it.seq()[j],
    {
        v.push(c);
    }
    assert(v@ =~= s@);
    v
}

} // verus!

verus! {

/// Wraps `std::str::from_utf8`. The standard library documents that it
/// succeeds exactly when the bytes are valid UTF-8, and that the returned
/// `&str` is a view of those same bytes.
#[verifier::external_body]
pub(crate) fn utf8_text(bytes: &[u8]) -> (res: Option<&str>)
    ensures
        res is Some <==> vstd::utf8::valid_utf8(bytes@),
        res matches Some(t) ==> t.spec_bytes() == bytes@,
{
    std::str::from_utf8(bytes).ok()
}

/// Decodes `bytes` as UTF-8; `None` when they are not valid UTF-8.
pub fn decode_text(bytes: &[u8]) -> (res: Option<&str>)
    ensures
        res is Some <==> vstd::utf8::valid_utf8(bytes@),
        res matches Some(t) ==> t@ == vstd::utf8::decode_utf8(bytes@),
{
    let r = utf8_text(bytes);
    proof {
        if let Some(t) = r {
            vstd::utf8::encode_utf8_decode_utf8(t@);
        }
    }
    r
}

/// `lit` stands in `s` at position `pos`.
pub open spec fn occurs_at(s: Seq<char>, pos: int, lit: Seq<char>) -> bool {
    0 <= pos && pos + lit.len() <= s.len() && s.subrange(pos, pos + lit.len()) == lit
}

/// Whether `lit` stands in `s` at position `pos`.
pub fn occurs_at_exec(s: &Vec<char>, pos: usize, lit: &Vec<char>) -> (b: bool)
    ensures
        b == occurs_at(s@, pos as int, lit@),
{
    if pos > s.len() || lit.len() > s.len() - pos {
        return false;
    }
    let mut j: usize = 0;
    while j < lit.len()
        invariant
            pos + lit.len() <= s.len(),
            j <= lit.len(),
            forall|k: int| 0 <= k < j ==> s@[pos + k] == lit@[k],
        decreases lit.len() - j,
    {
        if s[pos + j] != lit[j] {
            assert(s@.subrange(pos as int, pos + lit.len())[j as int] != lit@[j as int]);
            return false;
        }
        j += 1;
    }
    assert(s@.subrange(pos as int, pos + lit.len()) =~= lit@);
    true
}

/// Start of the segment that `str::split(pat)` yields last, scanning for
/// non-overlapping occurrences of `pat` from left to right; `from` is the
/// start of the current segment and `i` the next position to try.
pub open spec fn segment_start(s: Seq<char>, pat: Seq<char>, from: int, i: int) -> int
    decreases s.len() - i,
{
    if pat.len() == 0 || i < 0 || i + pat.len() > s.len() {
        from
    } else if occurs_at(s, i, pat) {
        segment_start(s, pat, i + pat.len(), i + pat.len())
    } else {
        segment_start(s, pat, from, i + 1)
    }
}

/// The last piece of `s` split on `pat` (what `s.split(pat).last()` gives).
pub open spec fn last_segment(s: Seq<char>, pat: Seq<char>) -> Seq<char> {
    s.subrange(segment_start(s, pat, 0, 0), s.len() as int)
}

proof fn lemma_segment_start(s: Seq<char>, pat: Seq<char>, from: int, i: int)
    requires
        pat.len() > 0,
        0 <= from <= i <= s.len(),
        forall|j: int| from <= j < i ==> !occurs_at(s, j, pat),
    ensures
        from <= segment_start(s, pat, from, i) <= s.len(),
        forall|j: int|
            segment_start(s, pat, from, i) <= j < s.len() ==> !#[trigger] occurs_at(s, j, pat),
    decreases s.len() - i,
{
    if i + pat.len() > s.len() {
    } else if occurs_at(s, i, pat) {
        lemma_segment_start(s, pat, i + pat.len(), i + pat.len());
    } else {
        lemma_segment_start(s, pat, from, i + 1);
    }
}

/// Index at which the last piece of `s` split on the non-empty `pat` begins.
/// That piece is a suffix of `s` in which `pat` does not occur.
pub fn last_segment_start(s: &Vec<char>, pat: &Vec<char>) -> (r: usize)
    requires
        pat.len() > 0,
    ensures
        r == segment_start(s@, pat@, 0, 0),
        r <= s.len(),
        forall|j: int| 0 <= j ==> !#[trigger] occurs_at(last_segment(s@, pat@), j, pat@),
{
    let mut from: usize = 0;
    let mut i: usize = 0;
    while i <= s.len() && pat.len() <= s.len() - i
        invariant
            pat.len() > 0,
            from <= i <= s.len(),
            segment_start(s@, pat@, from as int, i as int) == segment_start(s@, pat@, 0, 0),
        decreases s.len() - i,
    {
        if occurs_at_exec(s, i, pat) {
            i = i + pat.len();
            from = i;
        } else {
            i = i + 1;
        }
    }
    proof {
        lemma_segment_start(s@, pat@, 0, 0);
        let r = segment_start(s@, pat@, 0, 0);
        let seg = last_segment(s@, pat@);
        assert forall|j: int| 0 <= j implies !#[trigger] occurs_at(seg, j, pat@) by {
            if occurs_at(seg, j, pat@) {
                assert(s@.subrange(r + j, r + j + pat@.len()) =~= seg.subrange(j, j + pat@.len()));
                assert(occurs_at(s@, r + j, pat@));
            }
        }
    }
    from
}

} // verus!

verus! {

/// Pieces of `s` between occurrences of `sep`, scanning left to right
/// (what `str::split(sep)` yields): `start` is where the current piece began,
/// `done` the pieces already closed.
pub open spec fn split_from(s: Seq<char>, sep: char, i: int, start: int, done: Seq<Seq<char>>) -> Seq<Seq<char>>
    decreases s.len() - i,
{
    if i < 0 || i >= s.len() {
        done.push(s.subrange(start, s.len() as int))
    } else if s[i] == sep {
        split_from(s, sep, i + 1, i + 1, done.push(s.subrange(start, i)))
    } else {
        split_from(s, sep, i + 1, start, done)
    }
}

/// `s` split on every occurrence of `sep`.
pub open spec fn split_on(s: Seq<char>, sep: char) -> Seq<Seq<char>> {
    split_from(s, sep, 0, 0, seq![])
}

/// Pieces joined back together with `sep` between neighbours.
pub open spec fn join_with(pieces: Seq<Seq<char>>, sep: char) -> Seq<char>
    decreases pieces.len(),
{
    if pieces.len() == 0 {
        seq![]
    } else if pieces.len() == 1 {
        pieces[0]
    } else {
        join_with(pieces.drop_last(), sep).push(sep) + pieces.last()
    }
}

proof fn lemma_split_from(s: Seq<char>, sep: char, i: int, start: int, done: Seq<Seq<char>>)
    requires
        0 <= start <= i <= s.len(),
        forall|j: int| start <= j < i ==> s[j] != sep,
        forall|k: int| 0 <= k < done.len() ==> !(#[trigger] done[k]).contains(sep),
        join_with(done.push(s.subrange(start, i)), sep) == s.subrange(0, i),
    ensures
        join_with(split_from(s, sep, i, start, done), sep) == s,
        forall|k: int|
            0 <= k < split_from(s, sep, i, start, done).len() ==> !(#[trigger] split_from(
                s,
                sep,
                i,
                start,
                done,
            )[k]).contains(sep),
    decreases s.len() - i,
{
    let cur = s.subrange(start, i);
    if i >= s.len() {
        assert(s.subrange(0, i) =~= s);
        let r = done.push(cur);
        assert forall|k: int| 0 <= k < r.len() implies !(#[trigger] r[k]).contains(sep) by {
            if k == done.len() {
                if cur.contains(sep) {
                    let w = choose|w: int| 0 <= w < cur.len() && cur[w] == sep;
                    assert(s[start + w] == sep);
                }
            }
        }
    } else if s[i] == sep {
        let done2 = done.push(cur);
        assert forall|k: int| 0 <= k < done2.len() implies !(#[trigger] done2[k]).contains(sep) by {
            if k == done.len() {
                if cur.contains(sep) {
                    let w = choose|w: int| 0 <= w < cur.len() && cur[w] == sep;
                    assert(s[start + w] == sep);
                }
            }
        }
        let empty = s.subrange(i + 1, i + 1);
        assert(done2.push(empty).drop_last() =~= done2);
        assert(join_with(done2.push(empty), sep) =~= join_with(done2, sep).push(sep) + empty);
        assert(s.subrange(0, i + 1) =~= s.subrange(0, i).push(sep));
        lemma_split_from(s, sep, i + 1, i + 1, done2);
    } else {
        let next = s.subrange(start, i + 1);
        assert(next =~= cur.push(s[i]));
        if done.len() == 0 {
            assert(done.push(next)[0] == next);
            assert(done.push(cur)[0] == cur);
        } else {
            assert(done.push(next).drop_last() =~= done);
            assert(done.push(cur).drop_last() =~= done);
            assert(join_with(done.push(next), sep) =~= join_with(done.push(cur), sep).push(s[i]));
        }
        assert(s.subrange(0, i + 1) =~= s.subrange(0, i).push(s[i]));
        lemma_split_from(s, sep, i + 1, start, done);
    }
}

/// Splitting on a separator loses nothing: joining the pieces with the
/// separator gives the text back, and no piece holds the separator.
pub proof fn split_on_rejoins(s: Seq<char>, sep: char)
    ensures
        join_with(split_on(s, sep), sep) == s,
        forall|k: int|
            0 <= k < split_on(s, sep).len() ==> !(#[trigger] split_on(s, sep)[k]).contains(sep),
{
    let e: Seq<Seq<char>> = seq![];
    assert(e.push(s.subrange(0, 0))[0] == s.subrange(0, 0));
    assert(join_with(e.push(s.subrange(0, 0)), sep) =~= s.subrange(0, 0));
    lemma_split_from(s, sep, 0, 0, e);
}

/// Char ranges `[start, end)` of the pieces of `s` split on `sep`.
pub fn split_ranges(s: &Vec<char>, sep: char) -> (r: Vec<(usize, usize)>)
    ensures
        r.len() == split_on(s@, sep).len(),
        forall|k: int|
            0 <= k < r.len() ==> (#[trigger] r@[k]).0 <= r@[k].1 <= s.len() && s@.subrange(
                r@[k].0 as int,
                r@[k].1 as int,
            ) == split_on(s@, sep)[k],
{
    let mut r: Vec<(usize, usize)> = Vec::new();
    let mut start: usize = 0;
    let mut i: usize = 0;
    assert(Seq::new(r.len() as nat, |k: int| s@.subrange(r@[k].0 as int, r@[k].1 as int)) =~= seq![]);
    while i < s.len()
        invariant
            start <= i <= s.len(),
            forall|k: int| 0 <= k < r.len() ==> (#[trigger] r@[k]).0 <= r@[k].1 <= s.len(),
            split_from(
                s@,
                sep,
                i as int,
                start as int,
                Seq::new(r.len() as nat, |k: int| s@.subrange(r@[k].0 as int, r@[k].1 as int)),
            ) == split_on(s@, sep),
        decreases s.len() - i,
    {
        if s[i] == sep {
            let ghost before = Seq::new(
                r.len() as nat,
                |k: int| s@.subrange(r@[k].0 as int, r@[k].1 as int),
            );
            r.push((start, i));
            assert(Seq::new(r.len() as nat, |k: int| s@.subrange(r@[k].0 as int, r@[k].1 as int))
                =~= before.push(s@.subrange(start as int, i as int)));
            start = i + 1;
        }
        i = i + 1;
    }
    let ghost before = Seq::new(r.len() as nat, |k: int| s@.subrange(r@[k].0 as int, r@[k].1 as int));
    r.push((start, i));
    assert(Seq::new(r.len() as nat, |k: int| s@.subrange(r@[k].0 as int, r@[k].1 as int))
        =~= before.push(s@.subrange(start as int, i as int)));
    assert forall|k: int| 0 <= k < r.len() implies (#[trigger] r@[k]).0 <= r@[k].1 <= s.len() && s@.subrange(
        r@[k].0 as int,
        r@[k].1 as int,
    ) == split_on(s@, sep)[k] by {
        assert(split_on(s@, sep) == Seq::new(
            r.len() as nat,
            |k: int| s@.subrange(r@[k].0 as int, r@[k].1 as int),
        ));
    }
    r
}

} // verus!

verus! {

/// Decimal rendering of an integer, with a leading `-` when negative.
pub open spec fn signed_decimal(n: int) -> Seq<char> {
    if n < 0 {
        seq!['-'] + decimal((-n) as nat)
    } else {
        decimal(n as nat)
    }
}

/// Renders `n` in decimal, with a leading `-` when negative.
pub fn signed_decimal_string(n: i64) -> (s: String)
    ensures
        s@ == signed_decimal(n as int),
{
    if n < 0 {
        let magnitude: u128 = (0i128 - n as i128) as u128;
        let minus = "-";
        proof {
            reveal_strlit("-");
        }
        assert(minus@ =~= seq!['-']);
        let mut s = String::from_str(minus);
        let digits = decimal_string(magnitude);
        s.append(digits.as_str());
        s
    } else {
        decimal_string(n as u128)
    }
}

/// Whether the two strings hold the same characters.
pub fn same_text(a: &str, b: &str) -> (r: bool)
    ensures
        r == (a@ == b@),
{
    let x = chars_of(a);
    let y = chars_of(b);
    if x.len() != y.len() {
        return false;
    }
    let r = occurs_at_exec(&x, 0, &y);
    assert(x@.subrange(0, x@.len() as int) =~= x@);
    r
}

/// `a` followed by `b`, as a new string.
pub fn concat(a: &str, b: &str) -> (s: String)
    ensures
        s@ == a@ + b@,
{
    let mut s = String::from_str(a);
    s.append(b);
    s
}

} // verus!

verus! {

proof fn lemma_segment_start_no_match(s: Seq<char>, pat: Seq<char>, from: int, i: int)
    requires
        forall|j: int| 0 <= j ==> !#[trigger] occurs_at(s, j, pat),
    ensures
        segment_start(s, pat, from, i) == from,
    decreases s.len() - i,
{
    if pat.len() == 0 || i < 0 || i + pat.len() > s.len() {
    } else {
        assert(!occurs_at(s, i, pat));
        lemma_segment_start_no_match(s, pat, from, i + 1);
    }
}

/// Text in which the separator never occurs is its own last piece.
pub proof fn last_segment_without_separator(s: Seq<char>, pat: Seq<char>)
    requires
        forall|j: int| 0 <= j ==> !#[trigger] occurs_at(s, j, pat),
    ensures
        last_segment(s, pat) == s,
{
    lemma_segment_start_no_match(s, pat, 0, 0);
    assert(s.subrange(0, s.len() as int) =~= s);
}

/// The last piece is a suffix of the text.
pub proof fn last_segment_is_suffix(s: Seq<char>, pat: Seq<char>)
    ensures
        exists|k: int| 0 <= k <= s.len() && last_segment(s, pat) == #[trigger] s.subrange(k, s.len() as int),
{
    if pat.len() > 0 {
        lemma_segment_start(s, pat, 0, 0);
    }
    let k = segment_start(s, pat, 0, 0);
    assert(0 <= k <= s.len());
    assert(last_segment(s, pat) == s.subrange(k, s.len() as int));
}

} // verus!

verus! {

/// The number that decimal digits spell (most significant first).
pub open spec fn decimal_value(s: Seq<char>) -> int
    decreases s.len(),
{
    if s.len() == 0 {
        0
    } else {
        decimal_value(s.drop_last()) * 10 + ((s.last() as int) - 48)
    }
}

/// A decimal digit character.
pub open spec fn is_digit(c: char) -> bool {
    48 <= (c as int) <= 57
}

proof fn lemma_digit_chars(d: int)
    requires
        0 <= d < 10,
    ensures
        digit_chars()[d] as int == 48 + d,
{
    assert('0' as int == 48);
    assert('9' as int == 57);
}

/// Decimal rendering reads back: it is a non-empty run of digits without a
/// leading zero (unless it is just "0") that spells the number.
pub proof fn decimal_reads_back(n: nat)
    ensures
        decimal_value(decimal(n)) == n,
        decimal(n).len() >= 1,
        forall|i: int| 0 <= i < decimal(n).len() ==> is_digit(#[trigger] decimal(n)[i]),
        decimal(n).len() > 1 ==> decimal(n)[0] != '0',
    decreases n,
{
    if n < 10 {
        lemma_digit_chars(n as int);
        assert(decimal(n).drop_last() =~= Seq::<char>::empty());
        assert(decimal_value(decimal(n).drop_last()) == 0);
        assert(decimal(n).last() == digit_chars()[n as int]);
    } else {
        decimal_reads_back(n / 10);
        lemma_digit_chars((n % 10) as int);
        let d = decimal(n);
        assert(d.drop_last() =~= decimal(n / 10));
        assert(d.last() == digit_chars()[(n % 10) as int]);
        assert(decimal_value(d) == decimal_value(decimal(n / 10)) * 10 + (n % 10));
        assert((n / 10) * 10 + n % 10 == n);
        assert(d[0] == decimal(n / 10)[0]);
        if decimal(n / 10).len() == 1 {
            assert(n / 10 >= 1);
            assert(decimal_value(decimal(n / 10).drop_last()) == 0) by {
                assert(decimal(n / 10).drop_last() =~= Seq::<char>::empty());
            }
            assert(decimal(n / 10)[0] != '0') by {
                assert('0' as int == 48);
            }
        }
        assert forall|i: int| 0 <= i < d.len() implies is_digit(#[trigger] d[i]) by {
            if i < d.len() - 1 {
                assert(d[i] == decimal(n / 10)[i]);
            }
        }
    }
}

} // verus!
