//! Character and string utilities shared by the rest of the library.

use vstd::prelude::*;

verus! {

/// The Unicode `White_Space` property, which is what `str::trim` strips.
pub open spec fn is_white_space(c: char) -> bool {
    let u = c as u32;
    ||| 0x09 <= u <= 0x0d
    ||| u == 0x20
    ||| u == 0x85
    ||| u == 0xa0
    ||| u == 0x1680
    ||| 0x2000 <= u <= 0x200a
    ||| u == 0x2028
    ||| u == 0x2029
    ||| u == 0x202f
    ||| u == 0x205f
    ||| u == 0x3000
}

/// `s` without its leading and trailing white space.
pub open spec fn trim_spec(s: Seq<char>) -> Seq<char>
    decreases s.len(),
{
    if s.len() == 0 {
        s
    } else if is_white_space(s[0]) {
        trim_spec(s.drop_first())
    } else if is_white_space(s.last()) {
        trim_spec(s.drop_last())
    } else {
        s
    }
}

/// Whether `c` is a white-space character.
pub fn char_is_white_space(c: char) -> (b: bool)
    ensures
        b == is_white_space(c),
{
    let u = c as u32;
    (0x09 <= u && u <= 0x0d) || u == 0x20 || u == 0x85 || u == 0xa0 || u == 0x1680 || (0x2000
        <= u && u <= 0x200a) || u == 0x2028 || u == 0x2029 || u == 0x202f || u == 0x205f || u
        == 0x3000
}

/// The characters of `s`, in order.
pub fn chars_of(s: &str) -> (v: Vec<char>)
    ensures
        v@ == s@,
{
    let mut v: Vec<char> = Vec::new();
    for c in it: s.chars()
        invariant
            v@ == it.seq().take(it.index() as int),
    {
        v.push(c);
    }
    v
}


/// Appends `c` to `s`; a wrapper of `String::push`, which the standard library documents
/// as appending the given char to the end of the string.
#[verifier::external_body]
pub(crate) fn push_char(s: &mut String, c: char)
    ensures
        final(s)@ == old(s)@.push(c),
{
    s.push(c)
}

/// The string whose characters are `v`.
pub fn string_of(v: &[char]) -> (s: String)
    ensures
        s@ == v@,
{
    let mut s = String::new();
    let n = v.len();
    let mut i: usize = 0;
    while i < n
        invariant
            n == v@.len(),
            i <= n,
            s@ == v@.take(i as int),
        decreases n - i,
    {
        push_char(&mut s, v[i]);
        i = i + 1;
        assert(s@ =~= v@.take(i as int));
    }
    assert(v@.take(n as int) =~= v@);
    s
}

/// Whether two character sequences are equal.
pub fn chars_eq(a: &[char], b: &[char]) -> (r: bool)
    ensures
        r == (a@ == b@),
{
    if a.len() != b.len() {
        return false;
    }
    let n = a.len();
    let mut i: usize = 0;
    while i < n
        invariant
            n == a@.len(),
            n == b@.len(),
            i <= n,
            forall|j: int| 0 <= j < i ==> a@[j] == b@[j],
        decreases n - i,
    {
        if a[i] != b[i] {
            return false;
        }
        i = i + 1;
    }
    assert(a@ =~= b@);
    true
}

/// The characters of `v` between the first and the last one that is not white space.
pub fn trim_chars(v: &[char]) -> (r: Vec<char>)
    ensures
        r@ == trim_spec(v@),
{
    let mut lo: usize = 0;
    let mut hi: usize = v.len();
    assert(v@.subrange(0, hi as int) =~= v@);
    while lo < hi && char_is_white_space(v[lo])
        invariant
            lo <= hi == v@.len(),
            trim_spec(v@) == trim_spec(v@.subrange(lo as int, hi as int)),
        decreases hi - lo,
    {
        assert(v@.subrange(lo as int, hi as int).drop_first() =~= v@.subrange(
            lo + 1,
            hi as int,
        ));
        lo = lo + 1;
    }
    while lo < hi && char_is_white_space(v[hi - 1])
        invariant
            lo <= hi <= v@.len(),
            lo < hi ==> !is_white_space(v@[lo as int]),
            trim_spec(v@) == trim_spec(v@.subrange(lo as int, hi as int)),
        decreases hi - lo,
    {
        assert(v@.subrange(lo as int, hi as int).drop_last() =~= v@.subrange(
            lo as int,
            hi - 1,
        ));
        hi = hi - 1;
    }
    let mut r: Vec<char> = Vec::new();
    let mut i: usize = lo;
    while i < hi
        invariant
            lo <= i <= hi <= v@.len(),
            r@ == v@.subrange(lo as int, i as int),
        decreases hi - i,
    {
        r.push(v[i]);
        i = i + 1;
        assert(r@ =~= v@.subrange(lo as int, i as int));
    }
    r
}

/// Whether `s`, trimmed of white space, is exactly `target`.
pub fn trimmed_equals(s: &str, target: &str) -> (r: bool)
    ensures
        r == (trim_spec(s@) == target@),
{
    let v = chars_of(s);
    let t = trim_chars(v.as_slice());
    let w = chars_of(target);
    chars_eq(t.as_slice(), w.as_slice())
}

/// Whether `s` holds nothing but white space.
pub fn is_blank(s: &[char]) -> (r: bool)
    ensures
        r == (trim_spec(s@).len() == 0),
{
    let t = trim_chars(s);
    t.len() == 0
}


/// The decimal digit for `d`, for `d < 10`.
pub open spec fn digit_char(d: nat) -> char {
    ((48 + d) as u8) as char
}

/// Whether `c` is one of `0` to `9`.
pub open spec fn is_digit(c: char) -> bool {
    '0' <= c <= '9'
}

/// The value of the decimal digit `c`.
pub open spec fn digit_value(c: char) -> nat {
    ((c as u32) - 48) as nat
}

/// The decimal text of `n`, without leading zeros.
pub open spec fn dec_spec(n: nat) -> Seq<char>
    decreases n,
{
    if n < 10 {
        seq![digit_char(n)]
    } else {
        dec_spec(n / 10).push(digit_char(n % 10))
    }
}

/// The decimal text of a signed value, with a leading `-` when it is negative.
pub open spec fn signed_dec_spec(i: int) -> Seq<char> {
    if i < 0 {
        seq!['-'] + dec_spec((-i) as nat)
    } else {
        dec_spec(i as nat)
    }
}

/// Appends the decimal text of `n` to `s`.
pub fn push_dec(s: &mut String, n: u64)
    ensures
        final(s)@ == old(s)@ + dec_spec(n as nat),
    decreases n,
{
    if n >= 10 {
        push_dec(s, n / 10);
    }
    let d: u8 = (n % 10) as u8;
    let c: char = (48u8 + d) as char;
    push_char(s, c);
}

/// The decimal text of `n`, as `u64::to_string` gives it.
pub fn u64_to_dec(n: u64) -> (s: String)
    ensures
        s@ == dec_spec(n as nat),
{
    let mut s = String::new();
    push_dec(&mut s, n);
    s
}

/// The decimal text of `i`, as `i64::to_string` gives it.
pub fn i64_to_dec(i: i64) -> (s: String)
    ensures
        s@ == signed_dec_spec(i as int),
{
    let mut s = String::new();
    if i < 0 {
        push_char(&mut s, '-');
        let m: u64 = (-(i as i128)) as u64;
        push_dec(&mut s, m);
    } else {
        push_dec(&mut s, i as u64);
    }
    s
}

/// The value of a sequence of decimal digits.
pub open spec fn digits_value(d: Seq<char>) -> nat
    decreases d.len(),
{
    if d.len() == 0 {
        0
    } else {
        digits_value(d.drop_last()) * 10 + digit_value(d.last())
    }
}

/// `s` without one leading `+`, if it has one.
pub open spec fn without_plus(s: Seq<char>) -> Seq<char> {
    if s.len() > 0 && s[0] == '+' {
        s.drop_first()
    } else {
        s
    }
}

/// Whether every character of `d` is a decimal digit.
pub open spec fn all_digits(d: Seq<char>) -> bool {
    forall|i: int| 0 <= i < d.len() ==> is_digit(#[trigger] d[i])
}

/// What `str::parse::<u64>` gives for `s`: an optional `+`, then one or more decimal
/// digits whose value fits in a `u64`.
pub open spec fn parse_u64_spec(s: Seq<char>) -> Option<u64> {
    let d = without_plus(s);
    if d.len() == 0 || !all_digits(d) || digits_value(d) > u64::MAX {
        None
    } else {
        Some(digits_value(d) as u64)
    }
}

/// A prefix of a sequence is worth no more than the whole of it.
pub proof fn lemma_digits_value_prefix(d: Seq<char>, k: int)
    requires
        0 <= k <= d.len(),
    ensures
        digits_value(d.take(k)) <= digits_value(d),
    decreases d.len(),
{
    if k < d.len() {
        assert(d.drop_last().take(k) =~= d.take(k));
        lemma_digits_value_prefix(d.drop_last(), k);
    } else {
        assert(d.take(k) =~= d);
    }
}

/// Parses a `u64` as `str::parse::<u64>` does.
pub fn parse_u64(s: &str) -> (r: Option<u64>)
    ensures
        r == parse_u64_spec(s@),
{
    let v = chars_of(s);
    let mut start: usize = 0;
    if v.len() > 0 && v[0] == '+' {
        start = 1;
    }
    let ghost d = if v@.len() > 0 && v@[0] == '+' {
        v@.drop_first()
    } else {
        v@
    };
    assert(d =~= v@.subrange(start as int, v@.len() as int));
    if start == v.len() {
        return None;
    }
    let mut acc: u64 = 0;
    let mut i: usize = start;
    while i < v.len()
        invariant
            start <= i <= v@.len(),
            v@ == s@,
            d == without_plus(s@),
            d == v@.subrange(start as int, v@.len() as int),
            forall|j: int| start <= j < i ==> is_digit(v@[j]),
            acc as nat == digits_value(v@.subrange(start as int, i as int)),
        decreases v@.len() - i,
    {
        let c = v[i];
        if !('0' <= c && c <= '9') {
            assert(d[i - start] == c);
            assert(!is_digit(d[(i - start) as int]));
            return None;
        }
        let dv: u64 = ((c as u32) - 48) as u64;
        assert(v@.subrange(start as int, i + 1).drop_last() =~= v@.subrange(
            start as int,
            i as int,
        ));
        if acc > (u64::MAX - dv) / 10 {
            proof {
                let k = (i + 1 - start) as int;
                assert(d.take(k) =~= v@.subrange(start as int, i + 1));
                lemma_digits_value_prefix(d, k);
                assert(dv as nat == digit_value(c));
                assert(digits_value(v@.subrange(start as int, i + 1)) == acc * 10 + dv);
                assert(acc * 10 + dv > u64::MAX);
                assert(digits_value(d) > u64::MAX);
            }
            return None;
        }
        acc = acc * 10 + dv;
        i = i + 1;
    }
    assert(v@.subrange(start as int, i as int) =~= d);
    Some(acc)
}


/// The decimal text of a number is made of digits and is worth that number.
pub proof fn lemma_dec_digits(n: nat)
    ensures
        dec_spec(n).len() > 0,
        all_digits(dec_spec(n)),
        digits_value(dec_spec(n)) == n,
        dec_spec(n)[0] != '+',
    decreases n,
{
    if n >= 10 {
        lemma_dec_digits(n / 10);
        let p = dec_spec(n / 10);
        let c = digit_char(n % 10);
        assert(dec_spec(n) == p.push(c));
        assert(p.push(c).drop_last() =~= p);
        assert(digit_value(c) == n % 10);
        assert(digits_value(p.push(c)) == digits_value(p) * 10 + digit_value(c));
        assert((n / 10) * 10 + n % 10 == n);
        assert(digits_value(dec_spec(n)) == n);
        assert forall|i: int| 0 <= i < p.push(c).len() implies is_digit(#[trigger] p.push(c)[i]) by {
            if i < p.len() {
                assert(is_digit(p[i]));
            }
        }
    } else {
        let c = digit_char(n);
        assert(digit_value(c) == n);
        assert(seq![c].drop_last() =~= Seq::<char>::empty());
        assert(digits_value(Seq::<char>::empty()) == 0);
        assert(digits_value(seq![c]) == n);
    }
}

/// Reading back the decimal text of a `u64` gives that `u64`.
pub proof fn lemma_parse_dec_roundtrip(n: u64)
    ensures
        parse_u64_spec(dec_spec(n as nat)) == Some(n),
{
    lemma_dec_digits(n as nat);
}


/// The pieces of `s` between occurrences of `sep`, as `str::split` with a `char` gives
/// them: there is always at least one piece, and every occurrence of `sep` starts a new one.
pub open spec fn split_spec(s: Seq<char>, sep: char) -> Seq<Seq<char>>
    decreases s.len(),
{
    if s.len() == 0 {
        seq![Seq::<char>::empty()]
    } else {
        let p = split_spec(s.drop_last(), sep);
        if s.last() == sep {
            p.push(Seq::<char>::empty())
        } else {
            p.update(p.len() - 1, p.last().push(s.last()))
        }
    }
}

/// Splitting always gives at least one piece.
pub proof fn lemma_split_nonempty(s: Seq<char>, sep: char)
    ensures
        split_spec(s, sep).len() >= 1,
    decreases s.len(),
{
    if s.len() > 0 {
        lemma_split_nonempty(s.drop_last(), sep);
    }
}

/// Whether `c` does not occur in `s`.
pub open spec fn lacks(s: Seq<char>, c: char) -> bool {
    forall|i: int| 0 <= i < s.len() ==> s[i] != c
}

/// Adding characters at the end keeps all but the last piece and never removes one.
pub proof fn lemma_split_extend(x: Seq<char>, y: Seq<char>, sep: char)
    ensures
        split_spec(x + y, sep).len() >= split_spec(x, sep).len(),
        forall|i: int|
            0 <= i < split_spec(x, sep).len() - 1 ==> #[trigger] split_spec(x + y, sep)[i]
                == split_spec(x, sep)[i],
    decreases y.len(),
{
    if y.len() == 0 {
        assert(x + y =~= x);
    } else {
        lemma_split_extend(x, y.drop_last(), sep);
        assert((x + y).drop_last() =~= x + y.drop_last());
        lemma_split_nonempty(x + y.drop_last(), sep);
    }
}

/// Adding characters that are not the separator extends the last piece.
pub proof fn lemma_split_append_plain(x: Seq<char>, y: Seq<char>, sep: char)
    requires
        lacks(y, sep),
    ensures
        split_spec(x + y, sep) == split_spec(x, sep).update(
            split_spec(x, sep).len() - 1,
            split_spec(x, sep).last() + y,
        ),
    decreases y.len(),
{
    lemma_split_nonempty(x, sep);
    if y.len() == 0 {
        assert(x + y =~= x);
        assert(split_spec(x, sep).last() + y =~= split_spec(x, sep).last());
        assert(split_spec(x, sep).update(split_spec(x, sep).len() - 1, split_spec(x, sep).last())
            =~= split_spec(x, sep));
    } else {
        let z = y.drop_last();
        lemma_split_append_plain(x, z, sep);
        assert((x + y).drop_last() =~= x + z);
        assert((x + y).last() == y.last());
        let p = split_spec(x, sep);
        let q = split_spec(x + z, sep);
        assert(y.last() != sep) by {
            assert(y[y.len() - 1] != sep);
        }
        assert(q == p.update(p.len() - 1, p.last() + z));
        assert(q.len() == p.len());
        assert(q.last() == p.last() + z);
        assert(split_spec(x + y, sep) == q.update(q.len() - 1, q.last().push(y.last())));
        assert((p.last() + z).push(y.last()) =~= p.last() + y);
        assert(split_spec(x + y, sep) =~= p.update(p.len() - 1, p.last() + y));
    }
}

/// Adding the separator starts a new, empty piece.
pub proof fn lemma_split_push_sep(x: Seq<char>, sep: char)
    ensures
        split_spec(x.push(sep), sep) == split_spec(x, sep).push(Seq::<char>::empty()),
{
    assert(x.push(sep).drop_last() =~= x);
}

/// Splitting at a separator splits each side on its own: the pieces of `x`, the separator
/// and `y` are the pieces of `x` followed by those of `y`.
pub proof fn lemma_split_at_sep(x: Seq<char>, y: Seq<char>, sep: char)
    ensures
        split_spec(x.push(sep) + y, sep) == split_spec(x, sep) + split_spec(y, sep),
    decreases y.len(),
{
    if y.len() == 0 {
        assert(x.push(sep) + y =~= x.push(sep));
        lemma_split_push_sep(x, sep);
        assert(split_spec(x, sep).push(Seq::<char>::empty()) =~= split_spec(x, sep) + split_spec(
            y,
            sep,
        ));
    } else {
        let z = y.drop_last();
        lemma_split_at_sep(x, z, sep);
        lemma_split_nonempty(z, sep);
        lemma_split_nonempty(x, sep);
        assert((x.push(sep) + y).drop_last() =~= x.push(sep) + z);
        assert((x.push(sep) + y).last() == y.last());
        let p = split_spec(x, sep);
        let q = split_spec(z, sep);
        if y.last() == sep {
            assert((p + q).push(Seq::<char>::empty()) =~= p + q.push(Seq::<char>::empty()));
        } else {
            assert((p + q).update((p + q).len() - 1, (p + q).last().push(y.last())) =~= p
                + q.update(q.len() - 1, q.last().push(y.last())));
        }
    }
}

/// A sequence with a character that is not white space does not trim to nothing.
pub proof fn lemma_trim_keeps(s: Seq<char>, i: int)
    requires
        0 <= i < s.len(),
        !is_white_space(s[i]),
    ensures
        trim_spec(s).len() > 0,
    decreases s.len(),
{
    if is_white_space(s[0]) {
        assert(s.drop_first()[i - 1] == s[i]);
        lemma_trim_keeps(s.drop_first(), i - 1);
    } else if is_white_space(s.last()) {
        assert(s.drop_last()[i] == s[i]);
        lemma_trim_keeps(s.drop_last(), i);
    }
}

/// Whether the pieces `r` are, one by one, the sequences `sp`.
pub open spec fn pieces_are(r: Seq<Vec<char>>, sp: Seq<Seq<char>>) -> bool {
    &&& r.len() == sp.len()
    &&& forall|j: int| 0 <= j < r.len() ==> (#[trigger] r[j])@ == sp[j]
}

/// Splits `v` at every `sep`.
pub fn split_chars(v: &[char], sep: char) -> (r: Vec<Vec<char>>)
    ensures
        pieces_are(r@, split_spec(v@, sep)),
{
    let mut pieces: Vec<Vec<char>> = Vec::new();
    let mut cur: Vec<char> = Vec::new();
    let n = v.len();
    let mut i: usize = 0;
    assert(v@.take(0) =~= Seq::<char>::empty());
    while i < n
        invariant
            n == v@.len(),
            i <= n,
            pieces@.len() + 1 == split_spec(v@.take(i as int), sep).len(),
            forall|j: int|
                0 <= j < pieces@.len() ==> (#[trigger] pieces@[j])@ == split_spec(
                    v@.take(i as int),
                    sep,
                )[j],
            cur@ == split_spec(v@.take(i as int), sep).last(),
        decreases n - i,
    {
        let ghost before = split_spec(v@.take(i as int), sep);
        proof {
            lemma_split_nonempty(v@.take(i as int), sep);
        }
        assert(v@.take(i + 1).drop_last() =~= v@.take(i as int));
        assert(v@.take(i + 1).last() == v@[i as int]);
        if v[i] == sep {
            pieces.push(cur);
            cur = Vec::new();
        } else {
            cur.push(v[i]);
        }
        i = i + 1;
    }
    assert(v@.take(n as int) =~= v@);
    pieces.push(cur);
    pieces
}

} // verus!
