//! Character-level helpers shared by the modules that build or read text:
//! decimal and hexadecimal rendering, whitespace trimming, and searches over
//! character sequences.
use vstd::prelude::*;

verus! {

/// Appends one character to `s`; `String::push`.
#[verifier::external_body]
pub(crate) fn push_char(s: &mut String, c: char)
    ensures
        final(s)@ == old(s)@.push(c),
{
    s.push(c);
}

/// The characters of `s`, in order.
pub fn chars_of(s: &str) -> (v: Vec<char>)
    ensures
        v@ == s@,
{
    let mut v: Vec<char> = Vec::new();
    for c in it: s.chars()
        invariant
            it.seq() == s@,
            v@ == s@.take(it.index()),
    {
        v.push(c);
    }
    v
}

/// Appends every character of `v[from..to]` to `s`.
pub fn push_chars(s: &mut String, v: &Vec<char>, from: usize, to: usize)
    requires
        from <= to <= v@.len(),
    ensures
        final(s)@ == old(s)@ + v@.subrange(from as int, to as int),
{
    let mut i: usize = from;
    while i < to
        invariant
            from <= i <= to <= v@.len(),
            s@ == old(s)@ + v@.subrange(from as int, i as int),
        decreases to - i,
    {
        push_char(s, v[i]);
        i = i + 1;
        assert(v@.subrange(from as int, i as int) =~= v@.subrange(from as int, i - 1).push(
            v@[i - 1],
        ));
    }
}

/// A `String` holding exactly the characters of `v`.
pub fn string_of(v: &Vec<char>) -> (s: String)
    ensures
        s@ == v@,
{
    let mut s = String::new();
    push_chars(&mut s, v, 0, v.len());
    assert(v@.subrange(0, v@.len() as int) =~= v@);
    s
}

/// Appends the characters of `t` to `s`.
pub fn push_str(s: &mut String, t: &str)
    ensures
        final(s)@ == old(s)@ + t@,
{
    s.append(t);
}

/// The ASCII digit for `d < 10`.
pub open spec fn digit_char(d: nat) -> char {
    ((48 + d) as u8) as char
}

/// The decimal rendering of `n`, without sign or leading zeros.
pub open spec fn decimal(n: nat) -> Seq<char>
    decreases n,
{
    if n < 10 {
        seq![digit_char(n)]
    } else {
        decimal(n / 10).push(digit_char(n % 10))
    }
}

/// Appends the decimal rendering of `n` to `s`.
pub fn push_decimal(s: &mut String, n: u64)
    ensures
        final(s)@ == old(s)@ + decimal(n as nat),
    decreases n,
{
    if n >= 10 {
        push_decimal(s, n / 10);
    }
    let d: u8 = (n % 10) as u8;
    push_char(s, (48u8 + d) as char);
    assert(s@ =~= old(s)@ + decimal(n as nat));
}

/// The decimal rendering of `n` as a new `String`.
pub fn decimal_string(n: u64) -> (s: String)
    ensures
        s@ == decimal(n as nat),
{
    let mut s = String::new();
    push_decimal(&mut s, n);
    assert(s@ =~= decimal(n as nat));
    s
}

/// The lowercase hexadecimal digit for `d < 16`.
pub open spec fn hex_digit(d: nat) -> char {
    if d < 10 {
        digit_char(d)
    } else {
        ((97 + d - 10) as u8) as char
    }
}

/// Two lowercase hexadecimal digits for a byte, most significant first.
pub open spec fn hex2(b: u8) -> Seq<char> {
    seq![hex_digit((b / 16) as nat), hex_digit((b % 16) as nat)]
}

fn hex_digit_char(d: u8) -> (c: char)
    requires
        d < 16,
    ensures
        c == hex_digit(d as nat),
{
    if d < 10 {
        (48u8 + d) as char
    } else {
        (87u8 + d) as char
    }
}

/// Appends the two-digit lowercase hexadecimal rendering of `b` to `s`.
pub fn push_hex2(s: &mut String, b: u8)
    ensures
        final(s)@ == old(s)@ + hex2(b),
{
    push_char(s, hex_digit_char(b / 16));
    push_char(s, hex_digit_char(b % 16));
    assert(s@ =~= old(s)@ + hex2(b));
}

/// Unicode `White_Space`, as `char::is_whitespace` tests it.
pub open spec fn is_whitespace(c: char) -> bool {
    let v = c as u32;
    ||| 9 <= v <= 13
    ||| v == 32
    ||| v == 0x85
    ||| v == 0xa0
    ||| v == 0x1680
    ||| 0x2000 <= v <= 0x200a
    ||| v == 0x2028
    ||| v == 0x2029
    ||| v == 0x202f
    ||| v == 0x205f
    ||| v == 0x3000
}

pub fn char_is_whitespace(c: char) -> (b: bool)
    ensures
        b == is_whitespace(c),
{
    let v = c as u32;
    (9 <= v && v <= 13) || v == 32 || v == 0x85 || v == 0xa0 || v == 0x1680 || (0x2000 <= v && v
        <= 0x200a) || v == 0x2028 || v == 0x2029 || v == 0x202f || v == 0x205f || v == 0x3000
}

/// How many whitespace characters `s` starts with.
pub open spec fn leading_ws(s: Seq<char>) -> nat
    decreases s.len(),
{
    if s.len() > 0 && is_whitespace(s[0]) {
        1 + leading_ws(s.drop_first())
    } else {
        0
    }
}

/// How many whitespace characters `s` ends with.
pub open spec fn trailing_ws(s: Seq<char>) -> nat
    decreases s.len(),
{
    if s.len() > 0 && is_whitespace(s.last()) {
        1 + trailing_ws(s.drop_last())
    } else {
        0
    }
}

/// `s` without leading whitespace; `str::trim_start`.
pub open spec fn trim_start(s: Seq<char>) -> Seq<char> {
    s.skip(leading_ws(s) as int)
}

/// `s` without trailing whitespace; `str::trim_end`.
pub open spec fn trim_end(s: Seq<char>) -> Seq<char> {
    s.take(s.len() - trailing_ws(s))
}

/// `s` without leading or trailing whitespace; `str::trim`.
pub open spec fn trim(s: Seq<char>) -> Seq<char> {
    trim_end(trim_start(s))
}

pub proof fn lemma_leading_ws_bound(s: Seq<char>)
    ensures
        leading_ws(s) <= s.len(),
        forall|j: int| 0 <= j < leading_ws(s) ==> is_whitespace(#[trigger] s[j]),
        leading_ws(s) < s.len() ==> !is_whitespace(s[leading_ws(s) as int]),
    decreases s.len(),
{
    if s.len() > 0 && is_whitespace(s[0]) {
        lemma_leading_ws_bound(s.drop_first());
        assert forall|j: int| 0 <= j < leading_ws(s) implies is_whitespace(#[trigger] s[j]) by {
            if j > 0 {
                assert(s[j] == s.drop_first()[j - 1]);
            }
        }
    }
}

pub proof fn lemma_trailing_ws_bound(s: Seq<char>)
    ensures
        trailing_ws(s) <= s.len(),
        forall|j: int| s.len() - trailing_ws(s) <= j < s.len() ==> is_whitespace(#[trigger] s[j]),
        trailing_ws(s) < s.len() ==> !is_whitespace(s[s.len() - trailing_ws(s) - 1]),
    decreases s.len(),
{
    if s.len() > 0 && is_whitespace(s.last()) {
        lemma_trailing_ws_bound(s.drop_last());
        assert forall|j: int|
            s.len() - trailing_ws(s) <= j < s.len() implies is_whitespace(#[trigger] s[j]) by {
            if j < s.len() - 1 {
                assert(s[j] == s.drop_last()[j]);
            }
        }
    }
}

/// Leading whitespace is the longest whitespace prefix.
pub proof fn lemma_leading_ws_char(s: Seq<char>, i: int)
    requires
        0 <= i <= s.len(),
        forall|j: int| 0 <= j < i ==> is_whitespace(#[trigger] s[j]),
        i == s.len() || !is_whitespace(s[i]),
    ensures
        leading_ws(s) == i,
    decreases s.len(),
{
    if i > 0 {
        assert(is_whitespace(s[0]));
        assert forall|j: int| 0 <= j < i - 1 implies is_whitespace(#[trigger] s.drop_first()[j]) by {
            assert(s.drop_first()[j] == s[j + 1]);
        }
        if i < s.len() {
            assert(s.drop_first()[i - 1] == s[i]);
        }
        lemma_leading_ws_char(s.drop_first(), i - 1);
    }
}

/// Trailing whitespace is the longest whitespace suffix.
pub proof fn lemma_trailing_ws_char(s: Seq<char>, k: int)
    requires
        0 <= k <= s.len(),
        forall|j: int| k <= j < s.len() ==> is_whitespace(#[trigger] s[j]),
        k == 0 || !is_whitespace(s[k - 1]),
    ensures
        trailing_ws(s) == s.len() - k,
    decreases s.len(),
{
    if k < s.len() {
        assert(is_whitespace(s[s.len() - 1]));
        assert forall|j: int| k <= j < s.len() - 1 implies is_whitespace(
            #[trigger] s.drop_last()[j],
        ) by {
            assert(s.drop_last()[j] == s[j]);
        }
        if k > 0 {
            assert(s.drop_last()[k - 1] == s[k - 1]);
        }
        lemma_trailing_ws_char(s.drop_last(), k);
    }
}

/// The bounds `[start, end)` of `v[from..to]` once whitespace is trimmed from both ends.
pub fn trim_bounds(v: &Vec<char>, from: usize, to: usize) -> (r: (usize, usize))
    requires
        from <= to <= v@.len(),
    ensures
        from <= r.0 <= r.1 <= to,
        v@.subrange(r.0 as int, r.1 as int) == trim(v@.subrange(from as int, to as int)),
{
    let ghost s = v@.subrange(from as int, to as int);
    let mut i: usize = from;
    while i < to && char_is_whitespace(v[i])
        invariant
            from <= i <= to <= v@.len(),
            forall|j: int| from <= j < i ==> is_whitespace(#[trigger] v@[j]),
        decreases to - i,
    {
        i = i + 1;
    }
    proof {
        assert forall|j: int| 0 <= j < i - from implies is_whitespace(#[trigger] s[j]) by {
            assert(s[j] == v@[from + j]);
        }
        if i < to {
            assert(s[i - from] == v@[i as int]);
        }
        lemma_leading_ws_char(s, i - from);
    }
    let ghost t = s.skip(i - from);
    assert(t =~= v@.subrange(i as int, to as int));
    let mut k: usize = to;
    while k > i && char_is_whitespace(v[k - 1])
        invariant
            from <= i <= k <= to <= v@.len(),
            forall|j: int| k <= j < to ==> is_whitespace(#[trigger] v@[j]),
        decreases k - i,
    {
        k = k - 1;
    }
    proof {
        assert forall|j: int| k - i <= j < t.len() implies is_whitespace(#[trigger] t[j]) by {
            assert(t[j] == v@[i + j]);
        }
        if k > i {
            assert(t[k - i - 1] == v@[k - 1]);
        }
        lemma_trailing_ws_char(t, k - i);
        assert(v@.subrange(i as int, k as int) =~= t.take(t.len() - trailing_ws(t)));
    }
    (i, k)
}

/// `v` with surrounding whitespace removed.
pub fn trim_chars(v: &Vec<char>) -> (r: Vec<char>)
    ensures
        r@ == trim(v@),
{
    let (a, b) = trim_bounds(v, 0, v.len());
    assert(v@.subrange(0, v@.len() as int) =~= v@);
    slice_chars(v, a, b)
}

/// A copy of `v[from..to]`.
pub fn slice_chars(v: &Vec<char>, from: usize, to: usize) -> (r: Vec<char>)
    requires
        from <= to <= v@.len(),
    ensures
        r@ == v@.subrange(from as int, to as int),
{
    let mut r: Vec<char> = Vec::new();
    let mut i: usize = from;
    while i < to
        invariant
            from <= i <= to <= v@.len(),
            r@ == v@.subrange(from as int, i as int),
        decreases to - i,
    {
        r.push(v[i]);
        i = i + 1;
        assert(r@ =~= v@.subrange(from as int, i as int));
    }
    r
}

/// Whether `v[from..]` begins with `needle`.
pub open spec fn starts_at(v: Seq<char>, from: int, needle: Seq<char>) -> bool {
    0 <= from && from + needle.len() <= v.len() && v.subrange(from, from + needle.len()) == needle
}

/// Whether `v` holds `needle` at index `from`.
pub fn matches_at(v: &Vec<char>, from: usize, needle: &Vec<char>) -> (b: bool)
    ensures
        b == starts_at(v@, from as int, needle@),
{
    if from > v.len() || needle.len() > v.len() - from {
        return false;
    }
    let mut j: usize = 0;
    while j < needle.len()
        invariant
            from + needle@.len() <= v@.len(),
            v@.len() == v.len(),
            0 <= j <= needle@.len(),
            forall|k: int| 0 <= k < j ==> v@[from + k] == needle@[k],
        decreases needle@.len() - j,
    {
        if v[from + j] != needle[j] {
            assert(v@.subrange(from as int, from + needle@.len())[j as int] != needle@[j as int]);
            return false;
        }
        j = j + 1;
    }
    assert(v@.subrange(from as int, from + needle@.len()) =~= needle@);
    true
}

/// Whether `needle` occurs anywhere in `hay`; `str::contains`.
pub open spec fn contains_seq(hay: Seq<char>, needle: Seq<char>) -> bool {
    exists|i: int| 0 <= i <= hay.len() - needle.len() && #[trigger] starts_at(hay, i, needle)
}

pub fn contains_chars(hay: &Vec<char>, needle: &Vec<char>) -> (b: bool)
    ensures
        b == contains_seq(hay@, needle@),
{
    if needle.len() > hay.len() {
        return false;
    }
    let last = hay.len() - needle.len();
    let mut i: usize = 0;
    loop
        invariant
            needle@.len() <= hay@.len(),
            last == hay@.len() - needle@.len(),
            0 <= i <= last,
            forall|k: int| 0 <= k < i ==> !starts_at(hay@, k, needle@),
        decreases last - i,
    {
        if matches_at(hay, i, needle) {
            return true;
        }
        if i == last {
            return false;
        }
        i = i + 1;
    }
}

/// Whether the character `c` occurs in `s`.
pub fn has_char(s: &Vec<char>, c: char) -> (b: bool)
    ensures
        b == s@.contains(c),
{
    let mut i: usize = 0;
    while i < s.len()
        invariant
            0 <= i <= s@.len(),
            forall|k: int| 0 <= k < i ==> s@[k] != c,
        decreases s@.len() - i,
    {
        if s[i] == c {
            return true;
        }
        i = i + 1;
    }
    false
}

/// Element-wise equality of two character vectors.
pub fn chars_equal(a: &Vec<char>, b: &Vec<char>) -> (r: bool)
    ensures
        r == (a@ == b@),
{
    if a.len() != b.len() {
        return false;
    }
    let mut i: usize = 0;
    while i < a.len()
        invariant
            a@.len() == b@.len(),
            0 <= i <= a@.len(),
            forall|k: int| 0 <= k < i ==> a@[k] == b@[k],
        decreases a@.len() - i,
    {
        if a[i] != b[i] {
            return false;
        }
        i = i + 1;
    }
    assert(a@ =~= b@);
    true
}

/// Whether `a` and `b` hold the same characters.
pub fn str_equal(a: &str, b: &str) -> (r: bool)
    ensures
        r == (a@ == b@),
{
    let va = chars_of(a);
    let vb = chars_of(b);
    chars_equal(&va, &vb)
}


/// Lexicographic order on character sequences, by code point; `str`'s `<`.
pub open spec fn lex_lt(a: Seq<char>, b: Seq<char>) -> bool
    decreases a.len(),
{
    if a.len() == 0 {
        b.len() > 0
    } else if b.len() == 0 {
        false
    } else if a[0] != b[0] {
        (a[0] as u32) < (b[0] as u32)
    } else {
        lex_lt(a.drop_first(), b.drop_first())
    }
}

pub proof fn lemma_lex_irreflexive(a: Seq<char>)
    ensures
        !lex_lt(a, a),
    decreases a.len(),
{
    if a.len() > 0 {
        lemma_lex_irreflexive(a.drop_first());
    }
}

pub proof fn lemma_lex_total(a: Seq<char>, b: Seq<char>)
    ensures
        a == b || lex_lt(a, b) || lex_lt(b, a),
    decreases a.len(),
{
    if a.len() > 0 && b.len() > 0 && a[0] != b[0] {
        vstd::utf8::char_u32_cast(a[0], a[0] as u32);
        vstd::utf8::char_u32_cast(b[0], b[0] as u32);
        assert((a[0] as u32) != (b[0] as u32));
    }
    if a.len() > 0 && b.len() > 0 && a[0] == b[0] {
        lemma_lex_total(a.drop_first(), b.drop_first());
        if a.drop_first() == b.drop_first() {
            assert(a =~= seq![a[0]] + a.drop_first());
            assert(b =~= seq![b[0]] + b.drop_first());
        }
    } else if a.len() == 0 && b.len() == 0 {
        assert(a =~= b);
    }
}

pub proof fn lemma_lex_transitive(a: Seq<char>, b: Seq<char>, c: Seq<char>)
    requires
        lex_lt(a, b),
        lex_lt(b, c),
    ensures
        lex_lt(a, c),
    decreases a.len(),
{
    if a.len() > 0 && b.len() > 0 && c.len() > 0 && a[0] == b[0] && b[0] == c[0] {
        lemma_lex_transitive(a.drop_first(), b.drop_first(), c.drop_first());
    }
}

pub proof fn lemma_lex_asymmetric(a: Seq<char>, b: Seq<char>)
    requires
        lex_lt(a, b),
    ensures
        !lex_lt(b, a),
{
    if lex_lt(b, a) {
        lemma_lex_transitive(a, b, a);
        lemma_lex_irreflexive(a);
    }
}

/// Whether `a < b`, comparing characters by code point.
pub fn chars_lt(a: &Vec<char>, b: &Vec<char>) -> (r: bool)
    ensures
        r == lex_lt(a@, b@),
{
    let mut i: usize = 0;
    assert(a@.skip(0) =~= a@);
    assert(b@.skip(0) =~= b@);
    while i < a.len() && i < b.len() && a[i] == b[i]
        invariant
            0 <= i <= a@.len(),
            i <= b@.len(),
            lex_lt(a@, b@) == lex_lt(a@.skip(i as int), b@.skip(i as int)),
        decreases a@.len() - i,
    {
        assert(a@.skip(i as int).drop_first() =~= a@.skip(i + 1));
        assert(b@.skip(i as int).drop_first() =~= b@.skip(i + 1));
        i = i + 1;
    }
    if i == a.len() {
        i < b.len()
    } else if i == b.len() {
        false
    } else {
        (a[i] as u32) < (b[i] as u32)
    }
}

/// Whether every element of `l` comes strictly before the next, in `lex_lt` order.
pub open spec fn strictly_sorted(l: Seq<Seq<char>>) -> bool {
    forall|i: int, j: int| 0 <= i < j < l.len() ==> lex_lt(#[trigger] l[i], #[trigger] l[j])
}

/// Two strictly sorted sequences with the same elements are the same sequence.
pub proof fn lemma_strictly_sorted_unique(l1: Seq<Seq<char>>, l2: Seq<Seq<char>>)
    requires
        strictly_sorted(l1),
        strictly_sorted(l2),
        l1.to_set() == l2.to_set(),
    ensures
        l1 == l2,
    decreases l1.len(),
{
    if l1.len() == 0 {
        if l2.len() > 0 {
            assert(l2.to_set().contains(l2[0]));
        }
        assert(l1 =~= l2);
    } else {
        if l2.len() == 0 {
            assert(l1.to_set().contains(l1[0]));
        }
        let x1 = l1[0];
        let x2 = l2[0];
        assert(l2.to_set().contains(x1));
        assert(l1.to_set().contains(x2));
        let j2 = choose|j: int| 0 <= j < l2.len() && l2[j] == x1;
        let j1 = choose|j: int| 0 <= j < l1.len() && l1[j] == x2;
        if x1 != x2 {
            assert(lex_lt(x2, x1));
            assert(lex_lt(x1, x2));
            lemma_lex_asymmetric(x1, x2);
        }
        let t1 = l1.drop_first();
        let t2 = l2.drop_first();
        assert forall|y: Seq<char>| t1.to_set().contains(y) <==> t2.to_set().contains(y) by {
            if t1.to_set().contains(y) {
                let k = choose|k: int| 0 <= k < t1.len() && t1[k] == y;
                assert(l1[k + 1] == y);
                assert(l1.to_set().contains(y));
                let m = choose|m: int| 0 <= m < l2.len() && l2[m] == y;
                if m == 0 {
                    assert(lex_lt(l1[0], l1[k + 1]));
                    lemma_lex_irreflexive(y);
                }
                assert(t2[m - 1] == y);
            }
            if t2.to_set().contains(y) {
                let k = choose|k: int| 0 <= k < t2.len() && t2[k] == y;
                assert(l2[k + 1] == y);
                assert(l2.to_set().contains(y));
                let m = choose|m: int| 0 <= m < l1.len() && l1[m] == y;
                if m == 0 {
                    assert(lex_lt(l2[0], l2[k + 1]));
                    lemma_lex_irreflexive(y);
                }
                assert(t1[m - 1] == y);
            }
        }
        assert(t1.to_set() =~= t2.to_set());
        assert forall|i: int, j: int| 0 <= i < j < t1.len() implies lex_lt(#[trigger] t1[i], #[trigger] t1[j]) by {
            assert(t1[i] == l1[i + 1] && t1[j] == l1[j + 1]);
        }
        assert forall|i: int, j: int| 0 <= i < j < t2.len() implies lex_lt(#[trigger] t2[i], #[trigger] t2[j]) by {
            assert(t2[i] == l2[i + 1] && t2[j] == l2[j + 1]);
        }
        lemma_strictly_sorted_unique(t1, t2);
        assert(l1 =~= seq![x1] + t1);
        assert(l2 =~= seq![x2] + t2);
    }
}

/// A vector of characters, looked at deeply, is its view.
pub proof fn lemma_chars_deep_view(v: Vec<char>)
    ensures
        v.deep_view() == v@,
{
    assert(v.deep_view() =~= v@);
}

/// Adds `x` to the strictly sorted `l` unless it is already there, keeping it sorted.
pub fn insert_sorted(l: &mut Vec<Vec<char>>, x: Vec<char>)
    requires
        strictly_sorted(old(l).deep_view()),
    ensures
        strictly_sorted(final(l).deep_view()),
        final(l).deep_view().to_set() == old(l).deep_view().to_set().insert(x@),
{
    let ghost old_view = l.deep_view();
    let mut i: usize = 0;
    while i < l.len() && chars_lt(&l[i], &x)
        invariant
            0 <= i <= l@.len(),
            l.deep_view() == old_view,
            strictly_sorted(old_view),
            forall|k: int| 0 <= k < i ==> lex_lt(#[trigger] old_view[k], x@),
        decreases l@.len() - i,
    {
        proof {
            lemma_chars_deep_view(l@[i as int]);
        }
        i = i + 1;
    }
    proof {
        if i < l.len() {
            lemma_chars_deep_view(l@[i as int]);
        }
    }
    if i < l.len() && chars_equal(&l[i], &x) {
        assert(old_view[i as int] == x@);
        assert(old_view.to_set().insert(x@) =~= old_view.to_set());
        return;
    }
    proof {
        if i < old_view.len() {
            lemma_lex_total(old_view[i as int], x@);
        }
    }
    let ghost xv = x@;
    let ghost before = l@;
    l.insert(i, x);
    proof {
        let v = l.deep_view();
        assert forall|k: int| 0 <= k < v.len() implies v[k] == old_view.insert(i as int, xv)[k] by {
            lemma_chars_deep_view(l@[k]);
            if k < i {
                lemma_chars_deep_view(before[k]);
            } else if k > i {
                lemma_chars_deep_view(before[k - 1]);
            }
        }
        assert(v =~= old_view.insert(i as int, xv));
        assert forall|a: int, b: int| 0 <= a < b < v.len() implies lex_lt(#[trigger] v[a], #[trigger] v[b]) by {
            if b == i {
            } else if a == i {
                if b > i + 1 {
                    lemma_lex_transitive(x@, old_view[i as int], old_view[b - 1]);
                }
            } else if a < i && b > i {
                if b > i + 1 {
                    lemma_lex_transitive(x@, old_view[i as int], old_view[b - 1]);
                }
                lemma_lex_transitive(old_view[a], x@, v[b]);
            }
        }
        assert forall|y: Seq<char>| #[trigger] v.to_set().contains(y) <==> old_view.to_set().insert(
            xv,
        ).contains(y) by {
            if v.to_set().contains(y) {
                let k = choose|k: int| 0 <= k < v.len() && v[k] == y;
                if k < i {
                    assert(old_view[k] == y);
                } else if k > i {
                    assert(old_view[k - 1] == y);
                }
            }
            if old_view.to_set().contains(y) {
                let k = choose|k: int| 0 <= k < old_view.len() && old_view[k] == y;
                if k < i {
                    assert(v[k] == y);
                } else {
                    assert(v[k + 1] == y);
                }
            }
            if y == xv {
                assert(v[i as int] == y);
            }
        }
        assert(v.to_set() =~= old_view.to_set().insert(xv));
    }
}

/// The elements of `l` separated by `sep`; `[String]::join`.
pub open spec fn joined(l: Seq<Seq<char>>, sep: Seq<char>) -> Seq<char>
    decreases l.len(),
{
    if l.len() == 0 {
        Seq::empty()
    } else if l.len() == 1 {
        l[0]
    } else {
        joined(l.drop_last(), sep) + sep + l.last()
    }
}

/// Appends the elements of `l` separated by `sep`.
pub fn push_joined(s: &mut String, l: &Vec<Vec<char>>, sep: &str)
    ensures
        final(s)@ == old(s)@ + joined(l.deep_view(), sep@),
{
    let ghost lv = l.deep_view();
    let mut i: usize = 0;
    while i < l.len()
        invariant
            lv == l.deep_view(),
            0 <= i <= lv.len(),
            s@ == old(s)@ + joined(lv.take(i as int), sep@),
        decreases lv.len() - i,
    {
        if i > 0 {
            push_str(s, sep);
        }
        let item = &l[i];
        push_chars(s, item, 0, item.len());
        proof {
            assert(item@.subrange(0, item@.len() as int) =~= item@);
            assert(lv.take(i + 1).drop_last() =~= lv.take(i as int));
        }
        i = i + 1;
        assert(s@ =~= old(s)@ + joined(lv.take(i as int), sep@));
    }
    assert(lv.take(lv.len() as int) =~= lv);
}


/// Separator sets for `split_pieces`: 0 splits command-line tokens (whitespace
/// and the quote and semicolon characters), 1 splits at commas, 2 at newlines,
/// 3 at commas, semicolons and newlines.
pub open spec fn is_sep(kind: u8, c: char) -> bool {
    if kind == 0 {
        is_whitespace(c) || c == '"' || c == '\'' || c == ';'
    } else if kind == 1 {
        c == ','
    } else if kind == 2 {
        c == '\n'
    } else {
        c == ',' || c == ';' || c == '\n'
    }
}

fn sep_char(kind: u8, c: char) -> (r: bool)
    ensures
        r == is_sep(kind, c),
{
    if kind == 0 {
        char_is_whitespace(c) || c == '"' || c == '\'' || c == ';'
    } else if kind == 1 {
        c == ','
    } else if kind == 2 {
        c == '\n'
    } else {
        c == ',' || c == ';' || c == '\n'
    }
}

/// The pieces of `s` between separators, empty ones included; `str::split`.
pub open spec fn split_pieces(s: Seq<char>, kind: u8) -> Seq<Seq<char>>
    decreases s.len(),
{
    if s.len() == 0 {
        seq![Seq::empty()]
    } else {
        let pieces = split_pieces(s.drop_last(), kind);
        if is_sep(kind, s.last()) {
            pieces.push(Seq::empty())
        } else {
            pieces.update(pieces.len() - 1, pieces.last().push(s.last()))
        }
    }
}

pub proof fn lemma_split_pieces_nonempty(s: Seq<char>, kind: u8)
    ensures
        split_pieces(s, kind).len() >= 1,
    decreases s.len(),
{
    if s.len() > 0 {
        lemma_split_pieces_nonempty(s.drop_last(), kind);
    }
}

/// The pieces of `v` between separators of kind `kind`.
pub fn split_chars(v: &Vec<char>, kind: u8) -> (r: Vec<Vec<char>>)
    ensures
        r.deep_view() == split_pieces(v@, kind),
{
    let mut pieces: Vec<Vec<char>> = Vec::new();
    let mut current: Vec<char> = Vec::new();
    let mut i: usize = 0;
    assert(v@.take(0) =~= Seq::<char>::empty());
    assert(pieces.deep_view().push(current@) =~= split_pieces(v@.take(0), kind));
    while i < v.len()
        invariant
            0 <= i <= v@.len(),
            pieces.deep_view().push(current@) == split_pieces(v@.take(i as int), kind),
        decreases v@.len() - i,
    {
        let c = v[i];
        let ghost before = pieces.deep_view();
        let ghost cur = current@;
        proof {
            assert(v@.take(i + 1).drop_last() =~= v@.take(i as int));
            assert(v@.take(i + 1).last() == c);
            lemma_split_pieces_nonempty(v@.take(i as int), kind);
        }
        if sep_char(kind, c) {
            let done = current;
            pieces.push(done);
            current = Vec::new();
            proof {
                lemma_chars_deep_view(done);
                assert(pieces.deep_view() =~= before.push(cur));
            }
            assert(pieces.deep_view().push(current@) =~= split_pieces(v@.take(i + 1), kind));
        } else {
            current.push(c);
            assert(pieces.deep_view().push(current@) =~= split_pieces(v@.take(i + 1), kind));
        }
        i = i + 1;
    }
    let ghost before = pieces.deep_view();
    let ghost cur = current@;
    pieces.push(current);
    proof {
        assert(v@.take(v@.len() as int) =~= v@);
        assert forall|k: int| 0 <= k < pieces.deep_view().len() implies pieces.deep_view()[k]
            == before.push(cur)[k] by {
            if k == before.len() {
                lemma_chars_deep_view(pieces@[k]);
            }
        }
        assert(pieces.deep_view() =~= before.push(cur));
    }
    pieces
}

/// The index where `v[from..to]` stops starting with whitespace.
pub fn leading_ws_end(v: &Vec<char>, from: usize, to: usize) -> (r: usize)
    requires
        from <= to <= v@.len(),
    ensures
        r == from + leading_ws(v@.subrange(from as int, to as int)),
        from <= r <= to,
{
    let ghost s = v@.subrange(from as int, to as int);
    let mut i: usize = from;
    while i < to && char_is_whitespace(v[i])
        invariant
            from <= i <= to <= v@.len(),
            forall|j: int| from <= j < i ==> is_whitespace(#[trigger] v@[j]),
        decreases to - i,
    {
        i = i + 1;
    }
    proof {
        assert forall|j: int| 0 <= j < i - from implies is_whitespace(#[trigger] s[j]) by {
            assert(s[j] == v@[from + j]);
        }
        if i < to {
            assert(s[i - from] == v@[i as int]);
        }
        lemma_leading_ws_char(s, i - from);
    }
    i
}


/// Appends the strings of `l` separated by `sep`.
pub fn push_joined_strings(s: &mut String, l: &Vec<String>, sep: &str)
    ensures
        final(s)@ == old(s)@ + joined(l.deep_view(), sep@),
{
    let ghost lv = l.deep_view();
    let mut i: usize = 0;
    while i < l.len()
        invariant
            lv == l.deep_view(),
            0 <= i <= lv.len(),
            s@ == old(s)@ + joined(lv.take(i as int), sep@),
        decreases lv.len() - i,
    {
        if i > 0 {
            push_str(s, sep);
        }
        push_str(s, l[i].as_str());
        proof {
            assert(lv.take(i + 1).drop_last() =~= lv.take(i as int));
        }
        i = i + 1;
        assert(s@ =~= old(s)@ + joined(lv.take(i as int), sep@));
    }
    assert(lv.take(lv.len() as int) =~= lv);
}


/// The first index at or after `from` where `c` occurs in `s`.
pub open spec fn char_index_from(s: Seq<char>, c: char, from: int) -> Option<int>
    decreases s.len() - from,
{
    if from < 0 || from >= s.len() {
        None
    } else if s[from] == c {
        Some(from)
    } else {
        char_index_from(s, c, from + 1)
    }
}

pub proof fn lemma_char_index_from(s: Seq<char>, c: char, from: int)
    requires
        0 <= from,
    ensures
        char_index_from(s, c, from) matches Some(i) ==> from <= i < s.len() && s[i] == c && forall|
            k: int,
        | from <= k < i ==> s[k] != c,
        char_index_from(s, c, from) is None ==> forall|k: int| from <= k < s.len() ==> s[k] != c,
    decreases s.len() - from,
{
    if from < s.len() && s[from] != c {
        lemma_char_index_from(s, c, from + 1);
    }
}

/// The first index at or after `from` where `c` occurs in `v`.
pub fn find_char(v: &Vec<char>, c: char, from: usize) -> (r: Option<usize>)
    ensures
        (r is None) == (char_index_from(v@, c, from as int) is None),
        r matches Some(i) ==> char_index_from(v@, c, from as int) == Some(i as int) && from <= i
            < v@.len(),
{
    proof {
        lemma_char_index_from(v@, c, from as int);
    }
    let mut i: usize = from;
    while i < v.len()
        invariant
            from <= i,
            i <= v@.len() || i == from,
            char_index_from(v@, c, from as int) == char_index_from(v@, c, i as int),
        decreases v@.len() - i,
    {
        if v[i] == c {
            return Some(i);
        }
        i = i + 1;
    }
    None
}

/// The last index where `c` occurs in `s`.
pub open spec fn last_char_index(s: Seq<char>, c: char) -> Option<int>
    decreases s.len(),
{
    if s.len() == 0 {
        None
    } else if s.last() == c {
        Some(s.len() - 1)
    } else {
        last_char_index(s.drop_last(), c)
    }
}

pub proof fn lemma_last_char_index(s: Seq<char>, c: char)
    ensures
        last_char_index(s, c) matches Some(i) ==> 0 <= i < s.len() && s[i] == c,
    decreases s.len(),
{
    if s.len() > 0 && s.last() != c {
        lemma_last_char_index(s.drop_last(), c);
    }
}

/// The last index where `c` occurs in `v`.
pub fn rfind_char(v: &Vec<char>, c: char) -> (r: Option<usize>)
    ensures
        (r is None) == (last_char_index(v@, c) is None),
        r matches Some(i) ==> last_char_index(v@, c) == Some(i as int) && i < v@.len(),
{
    proof {
        lemma_last_char_index(v@, c);
    }
    let mut i: usize = v.len();
    assert(v@.take(i as int) =~= v@);
    while i > 0
        invariant
            i <= v@.len(),
            last_char_index(v@, c) == last_char_index(v@.take(i as int), c),
        decreases i,
    {
        if v[i - 1] == c {
            return Some(i - 1);
        }
        assert(v@.take(i as int).drop_last() =~= v@.take(i - 1));
        i = i - 1;
    }
    None
}


/// `base` joined with `p` as `PathBuf::join` documents it on Unix: an
/// absolute `p` replaces `base`; otherwise a `/` goes between them unless
/// `base` is empty or already ends with one.
pub open spec fn path_join(base: Seq<char>, p: Seq<char>) -> Seq<char> {
    if p.len() > 0 && p[0] == '/' {
        p
    } else if base.len() == 0 || base.last() == '/' {
        base + p
    } else {
        base + seq!['/'] + p
    }
}

pub fn join_path(base: &str, p: &str) -> (r: String)
    ensures
        r@ == path_join(base@, p@),
{
    let pc = chars_of(p);
    if pc.len() > 0 && pc[0] == '/' {
        return String::from_str(p);
    }
    let bc = chars_of(base);
    let mut r = String::from_str(base);
    if !(bc.len() == 0 || bc[bc.len() - 1] == '/') {
        push_char(&mut r, '/');
    }
    push_str(&mut r, p);
    r
}


/// Text that neither starts nor ends with whitespace is its own trim.
pub proof fn lemma_trim_plain(x: Seq<char>)
    requires
        x.len() > 0,
        !is_whitespace(x[0]),
        !is_whitespace(x.last()),
    ensures
        trim(x) == x,
{
    assert(leading_ws(x) == 0);
    assert(trim_start(x) =~= x);
    assert(trailing_ws(x) == 0);
    assert(trim_end(x) =~= x);
}

/// Text without a separator is one piece.
pub proof fn lemma_split_no_sep(x: Seq<char>, kind: u8)
    requires
        forall|i: int| 0 <= i < x.len() ==> !is_sep(kind, #[trigger] x[i]),
    ensures
        split_pieces(x, kind) == seq![x],
    decreases x.len(),
{
    if x.len() > 0 {
        assert forall|i: int| 0 <= i < x.drop_last().len() implies !is_sep(
            kind,
            #[trigger] x.drop_last()[i],
        ) by {
            assert(x.drop_last()[i] == x[i]);
        }
        lemma_split_no_sep(x.drop_last(), kind);
        assert(x.drop_last().push(x.last()) =~= x);
        assert(seq![x.drop_last()].update(0, x.drop_last().push(x.last())) =~= seq![x]);
    } else {
        assert(x =~= Seq::<char>::empty());
    }
}

/// Splitting at a separator splits the two sides apart.
pub proof fn lemma_split_concat(a: Seq<char>, sep: char, b: Seq<char>, kind: u8)
    requires
        is_sep(kind, sep),
    ensures
        split_pieces(a + seq![sep] + b, kind) == split_pieces(a, kind) + split_pieces(b, kind),
    decreases b.len(),
{
    let whole = a + seq![sep] + b;
    if b.len() == 0 {
        assert(whole.drop_last() =~= a);
        assert(split_pieces(b, kind) =~= seq![Seq::<char>::empty()]);
        assert(split_pieces(a, kind).push(Seq::<char>::empty()) =~= split_pieces(a, kind)
            + split_pieces(b, kind));
    } else {
        lemma_split_concat(a, sep, b.drop_last(), kind);
        lemma_split_pieces_nonempty(b.drop_last(), kind);
        assert(whole.drop_last() =~= a + seq![sep] + b.drop_last());
        assert(whole.last() == b.last());
        let left = split_pieces(a, kind);
        let right = split_pieces(b.drop_last(), kind);
        if is_sep(kind, b.last()) {
            assert((left + right).push(Seq::<char>::empty()) =~= left + right.push(
                Seq::<char>::empty(),
            ));
        } else {
            assert((left + right).update(
                (left + right).len() - 1,
                (left + right).last().push(b.last()),
            ) =~= left + right.update(right.len() - 1, right.last().push(b.last())));
        }
    }
}


/// The lines of `s` as `str::lines` gives them: the pieces between newlines,
/// a carriage return just before a newline dropped, and no empty piece after
/// a final newline.
pub open spec fn text_lines(s: Seq<char>) -> Seq<Seq<char>> {
    let p = split_pieces(s, 2);
    let cut = if p.last().len() == 0 { p.drop_last() } else { p };
    Seq::new(
        cut.len(),
        |i: int|
            if i < p.len() - 1 && cut[i].len() > 0 && cut[i].last() == '\r' {
                cut[i].drop_last()
            } else {
                cut[i]
            },
    )
}

/// The lines of `s`, as `str::lines` splits them.
pub fn lines_of(s: &str) -> (r: Vec<String>)
    ensures
        r.deep_view() == text_lines(s@),
{
    let pieces = split_chars(&chars_of(s), 2);
    let ghost p = pieces.deep_view();
    proof {
        lemma_split_pieces_nonempty(s@, 2);
    }
    let n = pieces.len();
    let cut = if pieces[n - 1].len() == 0 {
        n - 1
    } else {
        n
    };
    proof {
        lemma_chars_deep_view(pieces@[n - 1]);
    }
    let ghost cs = if p.last().len() == 0 { p.drop_last() } else { p };
    let ghost tl = text_lines(s@);
    assert(tl.len() == cut);
    assert forall|k: int| 0 <= k < cut implies #[trigger] tl[k] == (if k < n - 1 && p[k].len() > 0
        && p[k].last() == '\r' { p[k].drop_last() } else { p[k] }) by {}
    let mut r: Vec<String> = Vec::new();
    let mut i: usize = 0;
    while i < cut
        invariant
            tl == text_lines(s@),
            tl.len() == cut,
            forall|k: int| 0 <= k < cut ==> #[trigger] tl[k] == (if k < n - 1 && p[k].len() > 0
                && p[k].last() == '\r' { p[k].drop_last() } else { p[k] }),
            p == pieces.deep_view(),
            p == split_pieces(s@, 2),
            n == p.len(),
            cut <= n,
            cs.len() == cut,
            forall|k: int| 0 <= k < cut ==> cs[k] == p[k],
            i <= cut,
            r.deep_view() == text_lines(s@).take(i as int),
        decreases cut - i,
    {
        let piece = &pieces[i];
        proof {
            lemma_chars_deep_view(pieces@[i as int]);
        }
        let m = piece.len();
        let end = if i + 1 < n && m > 0 && piece[m - 1] == '\r' {
            m - 1
        } else {
            m
        };
        let line = string_of(&slice_chars(piece, 0, end));
        proof {
            assert(line@ =~= text_lines(s@)[i as int]);
        }
        let ghost before = r.deep_view();
        r.push(line);
        proof {
            assert(r.deep_view() =~= before.push(line@));
            assert(text_lines(s@).take(i + 1) =~= text_lines(s@).take(i as int).push(text_lines(s@)[i as int]));
        }
        i = i + 1;
    }
    assert(text_lines(s@).take(cut as int) =~= text_lines(s@));
    r
}

} // verus!
