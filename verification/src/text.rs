//! Character-level helpers shared by the packet, topic and metadata code:
//! decimal and hexadecimal text, substring search and unsigned parsing.
use vstd::prelude::*;

verus! {

/// `true` for the ASCII decimal digits.
pub open spec fn is_digit(c: char) -> bool {
    '0' <= c && c <= '9'
}

pub open spec fn digit_value(c: char) -> nat {
    (c as int - '0' as int) as nat
}

pub open spec fn all_digits(s: Seq<char>) -> bool {
    forall|i: int| 0 <= i < s.len() ==> #[trigger] is_digit(s[i])
}

/// The number that a string of decimal digits denotes, most significant first.
pub open spec fn digits_value(s: Seq<char>) -> nat
    decreases s.len(),
{
    if s.len() == 0 {
        0
    } else {
        digits_value(s.drop_last()) * 10 + digit_value(s.last())
    }
}

/// What `u32::from_str` accepts: an optional `+` followed by at least one
/// decimal digit, with a value that fits in 32 bits.
pub open spec fn spec_parse_u32(s: Seq<char>) -> Option<u32> {
    let d = if s.len() > 0 && s[0] == '+' {
        s.drop_first()
    } else {
        s
    };
    if d.len() > 0 && all_digits(d) && digits_value(d) <= u32::MAX {
        Some(digits_value(d) as u32)
    } else {
        None
    }
}

pub open spec fn digit_char(d: nat) -> char {
    ('0' as int + d) as char
}

/// Shortest decimal text of `n` (what `format!("{}", n)` gives for an unsigned integer).
pub open spec fn decimal(n: nat) -> Seq<char>
    decreases n,
{
    if n < 10 {
        seq![digit_char(n)]
    } else {
        decimal(n / 10).push(digit_char(n % 10))
    }
}

pub open spec fn hex_digit(n: nat) -> char {
    if n < 10 {
        ('0' as int + n) as char
    } else {
        ('a' as int + n - 10) as char
    }
}

/// Lower-case hexadecimal text of a byte string, two characters per byte.
pub open spec fn hex_lower(b: Seq<u8>) -> Seq<char>
    decreases b.len(),
{
    if b.len() == 0 {
        Seq::empty()
    } else {
        hex_lower(b.drop_last()) + seq![hex_digit(b.last() as nat / 16), hex_digit(b.last() as nat % 16)]
    }
}

/// `p` occurs in `v` starting at index `i`.
pub open spec fn occurs_at(v: Seq<char>, p: Seq<char>, i: int) -> bool {
    0 <= i && i + p.len() <= v.len() && v.subrange(i, i + p.len()) == p
}

/// The first index at or after `i` where `p` occurs in `v`.
pub open spec fn find_from(v: Seq<char>, p: Seq<char>, i: int) -> Option<int>
    decreases v.len() + 1 - i,
{
    if i < 0 || i + p.len() > v.len() {
        None
    } else if occurs_at(v, p, i) {
        Some(i)
    } else {
        find_from(v, p, i + 1)
    }
}

/// What a search result tells: the pattern is at the found index and nowhere before it;
/// no result means it occurs nowhere from `i` on.
pub proof fn lemma_find_from(v: Seq<char>, p: Seq<char>, i: int)
    requires
        0 <= i,
    ensures
        find_from(v, p, i) matches Some(j) ==> i <= j && occurs_at(v, p, j) && forall|k: int|
            i <= k < j ==> !#[trigger] occurs_at(v, p, k),
        find_from(v, p, i) is None ==> forall|k: int| i <= k ==> !#[trigger] occurs_at(v, p, k),
    decreases v.len() + 1 - i,
{
    if i + p.len() > v.len() {
    } else if occurs_at(v, p, i) {
    } else {
        lemma_find_from(v, p, i + 1);
        assert forall|k: int| i <= k && k < i + 1 implies !#[trigger] occurs_at(v, p, k) by {
            assert(k == i);
        }
    }
}

/// Skipping positions where the pattern does not occur leaves the search result unchanged.
pub proof fn lemma_find_from_skip(v: Seq<char>, p: Seq<char>, i: int, j: int)
    requires
        0 <= i <= j,
        forall|k: int| i <= k < j ==> !#[trigger] occurs_at(v, p, k),
    ensures
        find_from(v, p, i) == find_from(v, p, j),
    decreases j - i,
{
    if i < j {
        assert(!occurs_at(v, p, i));
        lemma_find_from_skip(v, p, i + 1, j);
    }
}

/// A search that can start nowhere finds nothing.
pub proof fn lemma_find_from_none(v: Seq<char>, p: Seq<char>, i: int)
    requires
        0 <= i,
        forall|k: int| i <= k ==> !#[trigger] occurs_at(v, p, k),
    ensures
        find_from(v, p, i) is None,
    decreases v.len() + 1 - i,
{
    if i + p.len() > v.len() {
    } else {
        assert(!occurs_at(v, p, i));
        lemma_find_from_none(v, p, i + 1);
    }
}

/// The decimal text of a number is a non-empty run of digits denoting it.
pub proof fn lemma_decimal(n: nat)
    ensures
        decimal(n).len() >= 1,
        all_digits(decimal(n)),
        digits_value(decimal(n)) == n,
    decreases n,
{
    assert(digit_value(digit_char(n % 10)) == n % 10);
    if n < 10 {
        let t = seq![digit_char(n)];
        assert(decimal(n) == t);
        assert(t.drop_last() =~= Seq::<char>::empty());
        assert(t.last() == digit_char(n));
        assert(digits_value(t) == digits_value(t.drop_last()) * 10 + digit_value(t.last()));
    }
    if n >= 10 {
        lemma_decimal(n / 10);
        let d = decimal(n / 10);
        assert(decimal(n).drop_last() == d);
        assert(n == (n / 10) * 10 + n % 10) by (nonlinear_arith);
        assert forall|i: int| 0 <= i < decimal(n).len() implies #[trigger] is_digit(decimal(n)[i]) by {
            if i < d.len() {
                assert(decimal(n)[i] == d[i]);
            }
        }
    }
}

/// Reading back the decimal text of a 32-bit number gives the number.
pub proof fn lemma_parse_decimal(n: u32)
    ensures
        spec_parse_u32(decimal(n as nat)) == Some(n),
{
    lemma_decimal(n as nat);
    assert(is_digit(decimal(n as nat)[0]));
}

pub open spec fn starts_with(v: Seq<char>, p: Seq<char>) -> bool {
    p.len() <= v.len() && v.subrange(0, p.len() as int) == p
}

/// The characters of a string slice.
pub fn chars_of(s: &str) -> (res: Vec<char>)
    ensures
        res@ == s@,
{
    let mut out: Vec<char> = Vec::new();
    for c in it: s.chars()
        invariant
            out@ == it.seq().take(it.index() as int),
    {
        out.push(c);
    }
    out
}

/// Appends one character to a string (`String::push`).
#[verifier::external_body]
pub(crate) fn push_char(s: &mut String, c: char)
    ensures
        final(s)@ == old(s)@.push(c),
{
    s.push(c);
}

/// A string holding exactly the given characters.
pub fn string_from_chars(v: &[char]) -> (res: String)
    ensures
        res@ == v@,
{
    let mut s = String::new();
    let mut i: usize = 0;
    while i < v.len()
        invariant
            i <= v.len(),
            s@ == v@.take(i as int),
        decreases v.len() - i,
    {
        push_char(&mut s, v[i]);
        assert(v@.take(i + 1) == v@.take(i as int).push(v@[i as int]));
        i = i + 1;
    }
    assert(v@.take(v.len() as int) == v@);
    s
}

/// Appends the decimal text of `n`.
pub fn push_decimal(s: &mut String, n: u32)
    ensures
        final(s)@ == old(s)@ + decimal(n as nat),
    decreases n,
{
    if n >= 10 {
        push_decimal(s, n / 10);
    }
    let d: u32 = n % 10;
    let c: char = if d == 0 {
        '0'
    } else if d == 1 {
        '1'
    } else if d == 2 {
        '2'
    } else if d == 3 {
        '3'
    } else if d == 4 {
        '4'
    } else if d == 5 {
        '5'
    } else if d == 6 {
        '6'
    } else if d == 7 {
        '7'
    } else if d == 8 {
        '8'
    } else {
        '9'
    };
    assert(c == digit_char(d as nat));
    push_char(s, c);
}

/// Whether the characters equal those of a string slice.
pub fn chars_eq(v: &[char], lit: &str) -> (res: bool)
    ensures
        res == (v@ == lit@),
{
    let l = chars_of(lit);
    if v.len() != l.len() {
        return false;
    }
    let mut i: usize = 0;
    while i < v.len()
        invariant
            i <= v.len(),
            v.len() == l.len(),
            l@ == lit@,
            forall|j: int| 0 <= j < i ==> v@[j] == l@[j],
        decreases v.len() - i,
    {
        if v[i] != l[i] {
            return false;
        }
        i = i + 1;
    }
    assert(v@ =~= l@);
    true
}

/// Whether `p` occurs in `v` at index `i`.
pub fn occurs_at_exec(v: &[char], p: &[char], i: usize) -> (res: bool)
    ensures
        res == occurs_at(v@, p@, i as int),
{
    if i > v.len() || p.len() > v.len() - i {
        return false;
    }
    let mut j: usize = 0;
    while j < p.len()
        invariant
            j <= p.len(),
            i + p.len() <= v.len(),
            forall|k: int| 0 <= k < j ==> v@[i + k] == p@[k],
        decreases p.len() - j,
    {
        if v[i + j] != p[j] {
            assert(v@.subrange(i as int, i + p.len())[j as int] != p@[j as int]);
            return false;
        }
        j = j + 1;
    }
    assert(v@.subrange(i as int, i + p.len()) =~= p@);
    true
}

/// The first index at or after `from` where `p` occurs in `v`.
pub fn find_from_exec(v: &[char], p: &[char], from: usize) -> (res: Option<usize>)
    ensures
        match res {
            Some(i) => find_from(v@, p@, from as int) == Some(i as int),
            None => find_from(v@, p@, from as int) is None,
        },
{
    let mut i = from;
    while i <= v.len() && p.len() <= v.len() - i
        invariant
            from <= i,
            find_from(v@, p@, from as int) == find_from(v@, p@, i as int),
        decreases v.len() + 1 - i,
    {
        if occurs_at_exec(v, p, i) {
            return Some(i);
        }
        proof {
            if i == v.len() {
                assert(v@.subrange(i as int, i as int) =~= p@);
            }
        }
        i = i + 1;
    }
    None
}

/// Whether `v` begins with the characters of `lit`.
pub fn starts_with_exec(v: &[char], lit: &str) -> (res: bool)
    ensures
        res == starts_with(v@, lit@),
{
    let p = chars_of(lit);
    let r = occurs_at_exec(v, p.as_slice(), 0);
    proof {
        if p@.len() <= v@.len() {
            assert(v@.subrange(0, p@.len() as int) == v@.subrange(0int, 0int + p@.len()));
        }
    }
    r
}

/// The characters of `v` from `start` (inclusive) to `end` (exclusive).
pub fn sub_chars(v: &[char], start: usize, end: usize) -> (res: Vec<char>)
    requires
        start <= end <= v.len(),
    ensures
        res@ == v@.subrange(start as int, end as int),
{
    let mut out: Vec<char> = Vec::new();
    let mut i = start;
    while i < end
        invariant
            start <= i <= end,
            end <= v.len(),
            out@ == v@.subrange(start as int, i as int),
        decreases end - i,
    {
        out.push(v[i]);
        assert(v@.subrange(start as int, i + 1) == v@.subrange(start as int, i as int).push(v@[i as int]));
        i = i + 1;
    }
    out
}

proof fn lemma_digits_value_push(s: Seq<char>, c: char)
    ensures
        digits_value(s.push(c)) == digits_value(s) * 10 + digit_value(c),
{
    assert(s.push(c).drop_last() == s);
}

proof fn lemma_digits_value_mono(s: Seq<char>, i: int)
    requires
        0 <= i <= s.len(),
    ensures
        digits_value(s.take(i)) <= digits_value(s),
    decreases s.len() - i,
{
    if i < s.len() {
        lemma_digits_value_mono(s, i + 1);
        assert(s.take(i + 1) == s.take(i).push(s[i]));
        lemma_digits_value_push(s.take(i), s[i]);
    } else {
        assert(s.take(i) == s);
    }
}

/// `u32::from_str` on characters: an optional `+`, then decimal digits.
pub fn parse_u32(s: &[char]) -> (res: Option<u32>)
    ensures
        res == spec_parse_u32(s@),
{
    let start: usize = if s.len() > 0 && s[0] == '+' {
        1
    } else {
        0
    };
    let ghost d = if s@.len() > 0 && s@[0] == '+' {
        s@.drop_first()
    } else {
        s@
    };
    assert(d == s@.subrange(start as int, s@.len() as int));
    if start >= s.len() {
        return None;
    }
    let mut i = start;
    let mut val: u64 = 0;
    while i < s.len()
        invariant
            start <= i <= s.len(),
            d == s@.subrange(start as int, s@.len() as int),
            d == (if s@.len() > 0 && s@[0] == '+' { s@.drop_first() } else { s@ }),
            all_digits(d.take(i - start)),
            val as nat == digits_value(d.take(i - start)),
            val <= u32::MAX,
        decreases s.len() - i,
    {
        let c = s[i];
        assert(d[i - start] == c);
        if c < '0' || c > '9' {
            assert(!is_digit(d[i - start]));
            assert(!all_digits(d));
            return None;
        }
        let dv: u64 = (c as u32 - '0' as u32) as u64;
        assert(d.take(i - start + 1) == d.take(i - start).push(c));
        proof {
            lemma_digits_value_push(d.take(i - start), c);
        }
        let next: u64 = val * 10 + dv;
        if next > 4294967295u64 {
            proof {
                let k: int = i - start + 1;
                assert(digit_value(c) == dv);
                assert(digits_value(d.take(k)) == next);
                lemma_digits_value_mono(d, k);
                assert(digits_value(d) > u32::MAX);
            }
            return None;
        }
        val = next;
        i = i + 1;
    }
    assert(d.take(i - start) == d);
    Some(val as u32)
}

/// Lower-case hexadecimal encoding of bytes (`hex::encode`).
#[verifier::external_body]
pub(crate) fn hex_encode(b: &[u8]) -> (res: String)
    ensures
        res@ == hex_lower(b@),
{
    hex::encode(b)
}

/// The position of the first `c` in `s`.
pub open spec fn index_of_char(s: Seq<char>, c: char) -> Option<int>
    decreases s.len(),
{
    if s.len() == 0 {
        None
    } else if s[0] == c {
        Some(0)
    } else {
        match index_of_char(s.drop_first(), c) {
            Some(i) => Some(i + 1),
            None => None,
        }
    }
}

pub proof fn lemma_index_of_char(s: Seq<char>, c: char)
    ensures
        index_of_char(s, c) matches Some(i) ==> 0 <= i < s.len() && s[i] == c && forall|k: int|
            0 <= k < i ==> s[k] != c,
        index_of_char(s, c) is None ==> forall|k: int| 0 <= k < s.len() ==> s[k] != c,
    decreases s.len(),
{
    if s.len() > 0 && s[0] != c {
        lemma_index_of_char(s.drop_first(), c);
        assert forall|k: int| 1 <= k < s.len() implies s[k] == s.drop_first()[k - 1] by {}
    }
}

/// The parts of `s` between the separators `c` (`str::split` with a character).
pub open spec fn split_char(s: Seq<char>, c: char) -> Seq<Seq<char>>
    decreases s.len(),
{
    match index_of_char(s, c) {
        None => seq![s],
        Some(i) => {
            proof {
                lemma_index_of_char(s, c);
            }
            seq![s.take(i)] + split_char(s.skip(i + 1), c)
        },
    }
}

pub proof fn lemma_index_of_char_concat(x: Seq<char>, y: Seq<char>, c: char)
    ensures
        index_of_char(x, c) matches Some(i) ==> index_of_char(x + y, c) == Some(i),
        index_of_char(x, c) is None ==> index_of_char(x + y, c) == match index_of_char(y, c) {
            Some(j) => Some(j + x.len()),
            None => None::<int>,
        },
    decreases x.len(),
{
    if x.len() > 0 {
        assert((x + y).drop_first() == x.drop_first() + y);
        lemma_index_of_char_concat(x.drop_first(), y, c);
    } else {
        assert(x + y == y);
    }
}

/// Splitting `a`, a separator and a part without separators gives the parts of
/// `a` followed by that part.
pub proof fn lemma_split_append(a: Seq<char>, b: Seq<char>, c: char)
    requires
        !b.contains(c),
    ensures
        split_char(a + seq![c] + b, c) == split_char(a, c).push(b),
    decreases a.len(),
{
    let t = a + seq![c] + b;
    lemma_index_of_char(b, c);
    assert(index_of_char(b, c) is None) by {
        if let Some(i) = index_of_char(b, c) {
            assert(b.contains(b[i]));
        }
    }
    assert(split_char(b, c) == seq![b]);
    lemma_index_of_char_concat(a, seq![c] + b, c);
    assert(a + seq![c] + b == a + (seq![c] + b));
    assert(index_of_char(seq![c] + b, c) == Some(0int));
    match index_of_char(a, c) {
        None => {
            assert(index_of_char(t, c) == Some(a.len() as int));
            lemma_index_of_char(t, c);
            assert(t.take(a.len() as int) == a);
            assert(t.skip(a.len() as int + 1) == b);
        },
        Some(i) => {
            lemma_index_of_char(a, c);
            assert(t.take(i) == a.take(i));
            assert(t.skip(i + 1) == a.skip(i + 1) + seq![c] + b);
            lemma_split_append(a.skip(i + 1), b, c);
        },
    }
}

/// The parts of `s` between the separators `sep`.
pub fn split_on(s: &[char], sep: char) -> (res: Vec<Vec<char>>)
    ensures
        res@.len() == split_char(s@, sep).len(),
        forall|i: int| 0 <= i < res@.len() ==> (#[trigger] res@[i])@ == split_char(s@, sep)[i],
{
    let mut parts: Vec<Vec<char>> = Vec::new();
    let mut cur: Vec<char> = Vec::new();
    let mut i: usize = 0;
    assert(parts@.map_values(|p: Vec<char>| p@) + split_char(cur@ + s@.skip(0), sep) =~= split_char(
        s@,
        sep,
    )) by {
        assert(cur@ + s@.skip(0) =~= s@);
    }
    while i < s.len()
        invariant
            i <= s.len(),
            !cur@.contains(sep),
            split_char(s@, sep) == parts@.map_values(|p: Vec<char>| p@) + split_char(
                cur@ + s@.skip(i as int),
                sep,
            ),
        decreases s.len() - i,
    {
        let ghost rest = s@.skip(i as int);
        let ghost old_parts = parts@.map_values(|p: Vec<char>| p@);
        if s[i] == sep {
            proof {
                assert(rest == seq![sep] + s@.skip(i + 1));
                assert(cur@ + rest == cur@ + seq![sep] + s@.skip(i + 1));
                lemma_index_of_char(cur@, sep);
                assert(index_of_char(cur@, sep) is None) by {
                    if let Some(j) = index_of_char(cur@, sep) {
                        assert(cur@.contains(cur@[j]));
                    }
                }
                lemma_index_of_char_concat(cur@, seq![sep] + s@.skip(i + 1), sep);
                assert(index_of_char(seq![sep] + s@.skip(i + 1), sep) == Some(0int));
                let t = cur@ + rest;
                assert(t.take(cur@.len() as int) == cur@);
                assert(t.skip(cur@.len() as int + 1) == s@.skip(i + 1));
            }
            parts.push(cur);
            cur = Vec::new();
            proof {
                assert(parts@.map_values(|p: Vec<char>| p@) == old_parts.push(
                    parts@[parts@.len() - 1]@,
                ));
                assert(cur@ + s@.skip(i + 1) == s@.skip(i + 1));
            }
        } else {
            let ghost old_cur = cur@;
            cur.push(s[i]);
            proof {
                assert(rest == seq![s@[i as int]] + s@.skip(i + 1));
                assert(cur@ + s@.skip(i + 1) == old_cur + rest);
                assert(!cur@.contains(sep)) by {
                    if cur@.contains(sep) {
                        let k = choose|k: int| 0 <= k < cur@.len() && cur@[k] == sep;
                        if k < old_cur.len() {
                            assert(old_cur[k] == sep);
                        }
                    }
                }
            }
        }
        i = i + 1;
    }
    proof {
        assert(cur@ + s@.skip(i as int) == cur@);
        lemma_index_of_char(cur@, sep);
        assert(index_of_char(cur@, sep) is None) by {
            if let Some(j) = index_of_char(cur@, sep) {
                assert(cur@.contains(cur@[j]));
            }
        }
    }
    let ghost old_parts = parts@.map_values(|p: Vec<char>| p@);
    parts.push(cur);
    proof {
        assert(parts@.map_values(|p: Vec<char>| p@) == old_parts.push(parts@[parts@.len() - 1]@));
    }
    assert forall|k: int| 0 <= k < parts@.len() implies (#[trigger] parts@[k])@ == split_char(
        s@,
        sep,
    )[k] by {
        assert(parts@.map_values(|p: Vec<char>| p@)[k] == parts@[k]@);
    }
    parts
}


/// Splitting gives at least one part.
pub proof fn lemma_split_nonempty(s: Seq<char>, c: char)
    ensures
        split_char(s, c).len() >= 1,
{
    if index_of_char(s, c) is Some {
        lemma_index_of_char(s, c);
    }
}

/// `s` from index `i` on, with every occurrence of `from` replaced by `to`,
/// occurrences taken from left to right without overlap (`str::replace` for a
/// non-empty `from`).
pub open spec fn replace_from(s: Seq<char>, from: Seq<char>, to: Seq<char>, i: int) -> Seq<char>
    decreases s.len() - i,
{
    if i < 0 || i >= s.len() {
        Seq::empty()
    } else if from.len() > 0 && occurs_at(s, from, i) {
        to + replace_from(s, from, to, i + from.len())
    } else {
        seq![s[i]] + replace_from(s, from, to, i + 1)
    }
}

/// Every occurrence of `from` (non-empty) in `s` replaced by `to`.
pub fn replace_all(s: &[char], from: &[char], to: &[char]) -> (res: Vec<char>)
    requires
        from.len() > 0,
    ensures
        res@ == replace_from(s@, from@, to@, 0),
{
    let mut out: Vec<char> = Vec::new();
    let mut i: usize = 0;
    while i < s.len()
        invariant
            i <= s.len(),
            from.len() > 0,
            out@ + replace_from(s@, from@, to@, i as int) == replace_from(s@, from@, to@, 0),
        decreases s.len() - i,
    {
        if occurs_at_exec(s, from, i) {
            let ghost before = out@;
            let mut j: usize = 0;
            while j < to.len()
                invariant
                    j <= to.len(),
                    out@ == before + to@.take(j as int),
                decreases to.len() - j,
            {
                out.push(to[j]);
                assert(to@.take(j + 1) == to@.take(j as int).push(to@[j as int]));
                j = j + 1;
            }
            assert(to@.take(j as int) == to@);
            assert(before + (to@ + replace_from(s@, from@, to@, i + from.len())) == out@
                + replace_from(s@, from@, to@, i + from.len()));
            i = i + from.len();
        } else {
            assert(out@ + (seq![s@[i as int]] + replace_from(s@, from@, to@, i + 1)) == out@.push(
                s@[i as int],
            ) + replace_from(s@, from@, to@, i + 1));
            out.push(s[i]);
            i = i + 1;
        }
    }
    assert(out@ + replace_from(s@, from@, to@, i as int) == out@);
    out
}

/// The value of an ASCII hexadecimal digit (either case).
pub open spec fn hex_value(c: u8) -> Option<u8> {
    if 48 <= c <= 57 {
        Some((c - 48) as u8)
    } else if 97 <= c <= 102 {
        Some((c - 87) as u8)
    } else if 65 <= c <= 70 {
        Some((c - 55) as u8)
    } else {
        None
    }
}

/// The bytes that hexadecimal text denotes, two digits per byte, or nothing when
/// some character is no hexadecimal digit.
pub open spec fn hex_decoded(d: Seq<u8>) -> Option<Seq<u8>> {
    if forall|i: int| 0 <= i < d.len() ==> #[trigger] hex_value(d[i]) is Some {
        Some(
            Seq::new(
                d.len() / 2,
                |i: int| (hex_value(d[2 * i])->0 * 16 + hex_value(d[2 * i + 1])->0) as u8,
            ),
        )
    } else {
        None
    }
}

/// `hex::decode_to_slice` into `out_len` bytes, for text of twice that length:
/// each pair of hexadecimal digits (either case) gives one byte, most
/// significant digit first; any other character is an error.
#[verifier::external_body]
pub(crate) fn hex_decode(data: &[u8], out_len: usize) -> (res: Option<Vec<u8>>)
    requires
        data.len() == 2 * out_len,
    ensures
        match res {
            Some(v) => hex_decoded(data@) == Some(v@),
            None => hex_decoded(data@) is None,
        },
{
    let mut out = vec![0u8; out_len];
    match hex::decode_to_slice(data, &mut out) {
        Ok(()) => Some(out),
        Err(_) => None,
    }
}

} // verus!
