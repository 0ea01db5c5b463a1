use vstd::prelude::*;

verus! {

broadcast use vstd::string::group_string_axioms;

/// `String::push` (std): appends one character at the end.
#[verifier::external_body]
pub(crate) fn push_char(s: &mut String, c: char)
    ensures
        final(s)@ == old(s)@.push(c),
{
    s.push(c)
}

/// The characters of a string slice, in order.
pub fn chars_of(s: &str) -> (r: Vec<char>)
    ensures
        r@ == s@,
{
    let n = s.unicode_len();
    let mut r: Vec<char> = Vec::new();
    let mut i: usize = 0;
    while i < n
        invariant
            n == s@.len(),
            i <= n,
            r@ == s@.subrange(0, i as int),
        decreases n - i,
    {
        let c = s.get_char(i);
        r.push(c);
        i = i + 1;
    }
    r
}

/// An owned string holding exactly the given characters.
pub fn string_of(v: &[char]) -> (r: String)
    ensures
        r@ == v@,
{
    let mut r = String::new();
    let mut i: usize = 0;
    while i < v.len()
        invariant
            i <= v.len(),
            r@ == v@.subrange(0, i as int),
        decreases v.len() - i,
    {
        push_char(&mut r, v[i]);
        i = i + 1;
    }
    r
}

/// Appends the characters of `s` to `v`.
pub fn push_str(v: &mut Vec<char>, s: &str)
    ensures
        final(v)@ == old(v)@ + s@,
{
    let mut c = chars_of(s);
    v.append(&mut c);
}

/// Appends the characters of `s` to `v`.
pub fn push_chars(v: &mut Vec<char>, s: &[char])
    ensures
        final(v)@ == old(v)@ + s@,
{
    let ghost v0 = v@;
    let mut i: usize = 0;
    while i < s.len()
        invariant
            i <= s.len(),
            v@ == v0 + s@.subrange(0, i as int),
        decreases s.len() - i,
    {
        v.push(s[i]);
        i = i + 1;
    }
    assert(s@.subrange(0, s@.len() as int) =~= s@);
}

/// The ASCII digit for `d` (`d < 10`).
pub open spec fn digit_char(d: nat) -> char {
    (d + 48) as char
}

/// Decimal notation of `n`, without leading zeros.
pub open spec fn decimal(n: nat) -> Seq<char>
    decreases n,
{
    if n < 10 {
        seq![digit_char(n)]
    } else {
        decimal(n / 10).push(digit_char(n % 10))
    }
}

/// Decimal notation of `n`, left-padded with `0` to at least two characters.
pub open spec fn decimal2(n: nat) -> Seq<char> {
    if n < 10 {
        seq!['0'] + decimal(n)
    } else {
        decimal(n)
    }
}

fn digit(d: u64) -> (c: char)
    requires
        d < 10,
    ensures
        c == digit_char(d as nat),
{
    let b: u8 = d as u8 + 48;
    let c = b as char;
    c
}

/// Appends the decimal notation of `n`.
pub fn push_decimal(v: &mut Vec<char>, n: u64)
    ensures
        final(v)@ == old(v)@ + decimal(n as nat),
    decreases n,
{
    if n < 10 {
        v.push(digit(n));
        assert(decimal(n as nat) == seq![digit_char(n as nat)]);
    } else {
        push_decimal(v, n / 10);
        v.push(digit(n % 10));
        assert(decimal(n as nat) == decimal((n / 10) as nat).push(digit_char((n % 10) as nat)));
    }
}

/// Appends the decimal notation of `n`, padded with `0` to two characters.
pub fn push_decimal2(v: &mut Vec<char>, n: u64)
    ensures
        final(v)@ == old(v)@ + decimal2(n as nat),
{
    if n < 10 {
        v.push('0');
    }
    push_decimal(v, n);
    proof {
        if n < 10 {
            assert(old(v)@.push('0') + decimal(n as nat) =~= old(v)@ + (seq!['0'] + decimal(n as nat)));
        }
    }
}

/// The decimal notation of `n`.
pub fn decimal_string(n: u64) -> (r: String)
    ensures
        r@ == decimal(n as nat),
{
    let mut v: Vec<char> = Vec::new();
    push_decimal(&mut v, n);
    assert(Seq::<char>::empty() + decimal(n as nat) =~= decimal(n as nat));
    string_of(&v)
}

/// `needle` occurs in `hay` starting at `i`.
pub open spec fn occurs_at(hay: Seq<char>, needle: Seq<char>, i: int) -> bool {
    0 <= i && i + needle.len() <= hay.len() && hay.subrange(i, i + needle.len()) == needle
}

/// `needle` occurs somewhere in `hay`.
pub open spec fn contains(hay: Seq<char>, needle: Seq<char>) -> bool {
    exists|i: int| occurs_at(hay, needle, i)
}

/// `hay` begins with `prefix`.
pub open spec fn starts_with(hay: Seq<char>, prefix: Seq<char>) -> bool {
    occurs_at(hay, prefix, 0)
}

/// Index of the first occurrence of `needle` in `hay` at or after `from`.
pub open spec fn first_occurrence_from(hay: Seq<char>, needle: Seq<char>, from: int, r: Option<int>) -> bool {
    match r {
        Some(i) => from <= i && occurs_at(hay, needle, i) && forall|j: int| from <= j < i ==> !occurs_at(hay, needle, j),
        None => forall|j: int| from <= j ==> !occurs_at(hay, needle, j),
    }
}

fn occurs_at_exec(hay: &[char], needle: &[char], i: usize) -> (r: bool)
    requires
        i + needle@.len() <= hay@.len(),
    ensures
        r == occurs_at(hay@, needle@, i as int),
{
    let hl = hay.len();
    let mut k: usize = 0;
    while k < needle.len()
        invariant
            hl == hay@.len(),
            i + needle@.len() <= hay@.len(),
            k <= needle@.len(),
            forall|m: int| 0 <= m < k ==> hay@[i + m] == needle@[m],
        decreases needle.len() - k,
    {
        if hay[i + k] != needle[k] {
            assert(hay@.subrange(i as int, i + needle@.len())[k as int] != needle@[k as int]);
            return false;
        }
        k = k + 1;
    }
    assert(hay@.subrange(i as int, i + needle@.len()) =~= needle@);
    true
}

/// Index of the first occurrence of `needle` in `hay` at or after `from`.
pub fn find_from(hay: &[char], needle: &[char], from: usize) -> (r: Option<usize>)
    ensures
        first_occurrence_from(hay@, needle@, from as int, match r { Some(i) => Some(i as int), None => None }),
{
    if needle.len() > hay.len() {
        return None;
    }
    let last = hay.len() - needle.len();
    let mut i = from;
    while i <= last
        invariant
            last + needle@.len() == hay@.len(),
            from <= i,
            forall|j: int| from <= j < i ==> !occurs_at(hay@, needle@, j),
        decreases last + 1 - i,
    {
        if occurs_at_exec(hay, needle, i) {
            return Some(i);
        }
        if i == last {
            return None;
        }
        i = i + 1;
    }
    None
}

/// `i` is the first place where `needle` occurs in `hay`.
pub open spec fn is_first_match(hay: Seq<char>, needle: Seq<char>, i: int) -> bool {
    occurs_at(hay, needle, i) && forall|j: int| 0 <= j < i ==> !occurs_at(hay, needle, j)
}

/// Where `needle` first occurs in `hay`, if anywhere.
pub open spec fn first_match(hay: Seq<char>, needle: Seq<char>) -> Option<int> {
    if exists|i: int| is_first_match(hay, needle, i) {
        Some(choose|i: int| is_first_match(hay, needle, i))
    } else {
        None
    }
}

/// A first match is a match.
pub proof fn lemma_first_match_occurs(hay: Seq<char>, needle: Seq<char>)
    ensures
        first_match(hay, needle) is Some ==> is_first_match(hay, needle, first_match(hay, needle)->0),
{
}

/// The first occurrence found from the start is `first_match`.
pub proof fn lemma_first_match_is(hay: Seq<char>, needle: Seq<char>, r: Option<int>)
    requires
        first_occurrence_from(hay, needle, 0, r),
    ensures
        r == first_match(hay, needle),
{
    match r {
        Some(i) => {
            assert(is_first_match(hay, needle, i));
            let k = choose|k: int| is_first_match(hay, needle, k);
            assert(is_first_match(hay, needle, k));
            if k < i {
                assert(!occurs_at(hay, needle, k));
            }
            if i < k {
                assert(!occurs_at(hay, needle, i));
            }
        },
        None => {
            if exists|i: int| is_first_match(hay, needle, i) {
                let k = choose|k: int| is_first_match(hay, needle, k);
                assert(occurs_at(hay, needle, k));
            }
        },
    }
}

/// Where `needle` first occurs in `hay` after its first `from` characters, counted from there.
pub fn find_after(hay: &[char], needle: &[char], from: usize) -> (r: Option<usize>)
    requires
        from <= hay@.len(),
    ensures
        match r {
            Some(i) => first_match(hay@.skip(from as int), needle@) == Some(i as int),
            None => first_match(hay@.skip(from as int), needle@) is None,
        },
{
    let found = find_from(hay, needle, from);
    let ghost rest = hay@.skip(from as int);
    proof {
        assert forall|k: int| 0 <= k implies #[trigger] occurs_at(rest, needle@, k) == occurs_at(hay@, needle@, k + from) by {
            if k + needle@.len() <= rest.len() {
                assert(rest.subrange(k, k + needle@.len()) =~= hay@.subrange(k + from, k + from + needle@.len()));
            }
        }
    }
    match found {
        Some(i) => {
            proof {
                let ghost r = Some((i - from) as int);
                assert forall|j: int| 0 <= j < i - from implies !occurs_at(rest, needle@, j) by {
                    assert(!occurs_at(hay@, needle@, j + from));
                }
                assert(occurs_at(rest, needle@, i - from));
                lemma_first_match_is(rest, needle@, r);
            }
            Some(i - from)
        },
        None => {
            proof {
                assert forall|j: int| 0 <= j implies !occurs_at(rest, needle@, j) by {
                    assert(!occurs_at(hay@, needle@, j + from));
                }
                lemma_first_match_is(rest, needle@, None);
            }
            None
        },
    }
}

/// Whether `needle` occurs in `hay`.
pub fn contains_exec(hay: &[char], needle: &[char]) -> (r: bool)
    ensures
        r == contains(hay@, needle@),
{
    match find_from(hay, needle, 0) {
        Some(i) => true,
        None => {
            assert(!contains(hay@, needle@));
            false
        },
    }
}

/// Whether `hay` begins with `prefix`.
pub fn starts_with_exec(hay: &[char], prefix: &[char]) -> (r: bool)
    ensures
        r == starts_with(hay@, prefix@),
{
    if prefix.len() > hay.len() {
        false
    } else {
        occurs_at_exec(hay, prefix, 0)
    }
}

/// ASCII upper-case letters mapped to lower case, all else unchanged.
pub open spec fn ascii_lower_char(c: char) -> char {
    if 'A' <= c && c <= 'Z' {
        ((c as u32) + 32) as char
    } else {
        c
    }
}

pub open spec fn ascii_lower(s: Seq<char>) -> Seq<char> {
    Seq::new(s.len(), |i: int| ascii_lower_char(s[i]))
}

fn ascii_lower_char_exec(c: char) -> (r: char)
    ensures
        r == ascii_lower_char(c),
{
    if 'A' <= c && c <= 'Z' {
        let u: u32 = c as u32 + 32;
        let b: u8 = u as u8;
        let r = b as char;
        r
    } else {
        c
    }
}

/// The string with its ASCII upper-case letters made lower case.
pub fn ascii_lower_exec(s: &[char]) -> (r: Vec<char>)
    ensures
        r@ == ascii_lower(s@),
{
    let mut r: Vec<char> = Vec::new();
    let mut i: usize = 0;
    while i < s.len()
        invariant
            i <= s.len(),
            r@ =~= ascii_lower(s@.subrange(0, i as int)),
        decreases s.len() - i,
    {
        r.push(ascii_lower_char_exec(s[i]));
        i = i + 1;
    }
    assert(s@.subrange(0, s@.len() as int) =~= s@);
    r
}

/// `char::is_whitespace`: the characters with the Unicode `White_Space` property.
pub open spec fn is_whitespace(c: char) -> bool {
    ||| ('\u{9}' <= c && c <= '\u{d}')
    ||| c == ' '
    ||| c == '\u{85}'
    ||| c == '\u{a0}'
    ||| c == '\u{1680}'
    ||| ('\u{2000}' <= c && c <= '\u{200a}')
    ||| c == '\u{2028}'
    ||| c == '\u{2029}'
    ||| c == '\u{202f}'
    ||| c == '\u{205f}'
    ||| c == '\u{3000}'
}

pub fn is_whitespace_exec(c: char) -> (r: bool)
    ensures
        r == is_whitespace(c),
{
    ('\u{9}' <= c && c <= '\u{d}') || c == ' ' || c == '\u{85}' || c == '\u{a0}' || c == '\u{1680}'
        || ('\u{2000}' <= c && c <= '\u{200a}') || c == '\u{2028}' || c == '\u{2029}'
        || c == '\u{202f}' || c == '\u{205f}' || c == '\u{3000}'
}

/// `str::trim`: `s` without leading and trailing whitespace.
pub open spec fn trimmed(s: Seq<char>, r: Seq<char>) -> bool {
    exists|a: int, b: int| #![trigger s.subrange(a, b)]
        0 <= a <= b <= s.len() && r == s.subrange(a, b)
        && (forall|i: int| 0 <= i < a ==> is_whitespace(s[i]))
        && (forall|i: int| b <= i < s.len() ==> is_whitespace(s[i]))
        && (a == b || (!is_whitespace(s[a]) && !is_whitespace(s[b - 1])))
}

/// `str::trim` on characters.
pub fn trim_exec(s: &[char]) -> (r: Vec<char>)
    ensures
        trimmed(s@, r@),
{
    let n = s.len();
    let mut a: usize = 0;
    while a < n && is_whitespace_exec(s[a])
        invariant
            a <= n == s@.len(),
            forall|i: int| 0 <= i < a ==> is_whitespace(s@[i]),
        decreases n - a,
    {
        a = a + 1;
    }
    let mut b: usize = n;
    while b > a && is_whitespace_exec(s[b - 1])
        invariant
            a <= b <= n == s@.len(),
            forall|i: int| b <= i < n ==> is_whitespace(s@[i]),
        decreases b,
    {
        b = b - 1;
    }
    let mut r: Vec<char> = Vec::new();
    let mut i = a;
    while i < b
        invariant
            a <= i <= b <= n == s@.len(),
            r@ == s@.subrange(a as int, i as int),
        decreases b - i,
    {
        r.push(s[i]);
        i = i + 1;
    }
    assert(r@ == s@.subrange(a as int, b as int));
    r
}


/// `str::trim` as a function.
pub open spec fn trim(s: Seq<char>) -> Seq<char> {
    choose|t: Seq<char>| trimmed(s, t)
}

pub proof fn lemma_trimmed_unique(s: Seq<char>, t1: Seq<char>, t2: Seq<char>)
    requires
        trimmed(s, t1),
        trimmed(s, t2),
    ensures
        t1 == t2,
{
    let (a1, b1) = choose|a: int, b: int| #![trigger s.subrange(a, b)]
        0 <= a <= b <= s.len() && t1 == s.subrange(a, b)
        && (forall|i: int| 0 <= i < a ==> is_whitespace(s[i]))
        && (forall|i: int| b <= i < s.len() ==> is_whitespace(s[i]))
        && (a == b || (!is_whitespace(s[a]) && !is_whitespace(s[b - 1])));
    let (a2, b2) = choose|a: int, b: int| #![trigger s.subrange(a, b)]
        0 <= a <= b <= s.len() && t2 == s.subrange(a, b)
        && (forall|i: int| 0 <= i < a ==> is_whitespace(s[i]))
        && (forall|i: int| b <= i < s.len() ==> is_whitespace(s[i]))
        && (a == b || (!is_whitespace(s[a]) && !is_whitespace(s[b - 1])));
    if a1 == b1 || a2 == b2 {
        // one side is empty: then every character is whitespace, so both are empty
        if a1 == b1 && a2 < b2 {
            assert(is_whitespace(s[a2]) || a2 < a1 || a2 >= b1);
        }
        if a2 == b2 && a1 < b1 {
            assert(is_whitespace(s[a1]) || a1 < a2 || a1 >= b2);
        }
        assert(t1.len() == 0 && t2.len() == 0);
        assert(t1 =~= t2);
    } else {
        if a1 < a2 { assert(is_whitespace(s[a1])); }
        if a2 < a1 { assert(is_whitespace(s[a2])); }
        if b1 < b2 { assert(is_whitespace(s[b2 - 1])); }
        if b2 < b1 { assert(is_whitespace(s[b1 - 1])); }
        assert(t1 =~= t2);
    }
}

/// `s` with trailing whitespace and leading whitespace removed, as `str::trim` does.
pub fn trim_chars(s: &[char]) -> (r: Vec<char>)
    ensures
        r@ == trim(s@),
{
    let r = trim_exec(s);
    proof {
        let t = choose|t: Seq<char>| trimmed(s@, t);
        lemma_trimmed_unique(s@, r@, t);
    }
    r
}

/// `s` without the copies of `c` at its end (`str::trim_end_matches` with a character).
pub open spec fn strip_trailing(s: Seq<char>, c: char) -> Seq<char>
    decreases s.len(),
{
    if s.len() > 0 && s.last() == c {
        strip_trailing(s.drop_last(), c)
    } else {
        s
    }
}

/// `str::trim_end_matches` with a character, on characters.
pub fn strip_trailing_exec(s: &[char], c: char) -> (r: Vec<char>)
    ensures
        r@ == strip_trailing(s@, c),
{
    let mut b: usize = s.len();
    assert(s@.subrange(0, b as int) =~= s@);
    while b > 0 && s[b - 1] == c
        invariant
            b <= s@.len(),
            strip_trailing(s@, c) == strip_trailing(s@.subrange(0, b as int), c),
        decreases b,
    {
        assert(s@.subrange(0, b as int).drop_last() =~= s@.subrange(0, b - 1));
        b = b - 1;
    }
    slice_chars(s, 0, b)
}

/// `s` without its leading `c` characters (`trim_start_matches`).
pub open spec fn strip_leading(s: Seq<char>, c: char) -> Seq<char>
    decreases s.len(),
{
    if s.len() > 0 && s[0] == c {
        strip_leading(s.drop_first(), c)
    } else {
        s
    }
}

pub fn strip_leading_exec(s: &[char], c: char) -> (r: Vec<char>)
    ensures
        r@ == strip_leading(s@, c),
{
    let mut a: usize = 0;
    assert(s@.skip(0) =~= s@);
    while a < s.len() && s[a] == c
        invariant
            a <= s@.len(),
            strip_leading(s@, c) == strip_leading(s@.skip(a as int), c),
        decreases s.len() - a,
    {
        assert(s@.skip(a as int).drop_first() =~= s@.skip(a + 1));
        a = a + 1;
    }
    let mut r: Vec<char> = Vec::new();
    let mut i = a;
    while i < s.len()
        invariant
            a <= i <= s@.len(),
            r@ == s@.subrange(a as int, i as int),
        decreases s.len() - i,
    {
        r.push(s[i]);
        i = i + 1;
    }
    assert(r@ =~= s@.skip(a as int));
    r
}

/// `i` is the index of the first `c` in `s`.
pub open spec fn is_first_index(s: Seq<char>, c: char, i: int) -> bool {
    0 <= i < s.len() && s[i] == c && forall|j: int| 0 <= j < i ==> s[j] != c
}

/// Index of the first `c` in `s`, or `s.len()` when there is none.
pub open spec fn index_of(s: Seq<char>, c: char) -> int {
    if exists|i: int| is_first_index(s, c, i) {
        choose|i: int| is_first_index(s, c, i)
    } else {
        s.len() as int
    }
}

pub fn index_of_exec(s: &[char], c: char) -> (r: usize)
    ensures
        r == index_of(s@, c),
        r <= s@.len(),
        forall|j: int| 0 <= j < r ==> s@[j] != c,
        r < s@.len() ==> s@[r as int] == c,
{
    let mut i: usize = 0;
    while i < s.len()
        invariant
            i <= s@.len(),
            forall|j: int| 0 <= j < i ==> s@[j] != c,
        decreases s.len() - i,
    {
        if s[i] == c {
            assert(is_first_index(s@, c, i as int));
            let ghost k = choose|k: int| is_first_index(s@, c, k);
            assert(k == i) by {
                if k < i { assert(s@[k] != c); }
                if k > i { assert(s@[i as int] != c); }
            }
            return i;
        }
        i = i + 1;
    }
    assert(!exists|k: int| is_first_index(s@, c, k));
    i
}

/// The characters of `s` in `[from, to)`.
pub fn slice_chars(s: &[char], from: usize, to: usize) -> (r: Vec<char>)
    requires
        from <= to <= s@.len(),
    ensures
        r@ == s@.subrange(from as int, to as int),
{
    let mut r: Vec<char> = Vec::new();
    let mut i = from;
    while i < to
        invariant
            from <= i <= to <= s@.len(),
            r@ == s@.subrange(from as int, i as int),
        decreases to - i,
    {
        r.push(s[i]);
        i = i + 1;
    }
    r
}

/// Value of a string of ASCII digits.
pub open spec fn digits_value(s: Seq<char>) -> nat
    decreases s.len(),
{
    if s.len() == 0 {
        0
    } else {
        digits_value(s.drop_last()) * 10 + ((s.last() as nat) - 48) as nat
    }
}

pub open spec fn all_digits(s: Seq<char>) -> bool {
    forall|i: int| 0 <= i < s.len() ==> '0' <= #[trigger] s[i] && s[i] <= '9'
}

/// `u64::from_str`: an optional `+` then one or more ASCII digits, with a value that fits.
pub open spec fn parse_u64(s: Seq<char>) -> Option<u64> {
    let d = if s.len() > 0 && s[0] == '+' { s.drop_first() } else { s };
    if d.len() > 0 && all_digits(d) && digits_value(d) <= u64::MAX {
        Some(digits_value(d) as u64)
    } else {
        None
    }
}

pub fn parse_u64_exec(s: &[char]) -> (r: Option<u64>)
    ensures
        r == parse_u64(s@),
{
    let start: usize = if s.len() > 0 && s[0] == '+' { 1 } else { 0 };
    let ghost d = if s@.len() > 0 && s@[0] == '+' { s@.drop_first() } else { s@ };
    assert(d =~= s@.skip(start as int));
    if start >= s.len() {
        return None;
    }
    let mut value: u64 = 0;
    let mut i = start;
    while i < s.len()
        invariant
            start <= i <= s@.len(),
            start < s@.len(),
            d =~= s@.skip(start as int),
            d == (if s@.len() > 0 && s@[0] == '+' { s@.drop_first() } else { s@ }),
            all_digits(s@.subrange(start as int, i as int)),
            value == digits_value(s@.subrange(start as int, i as int)),
        decreases s.len() - i,
    {
        let c = s[i];
        assert(s@.subrange(start as int, i + 1).drop_last() =~= s@.subrange(start as int, i as int));
        if !('0' <= c && c <= '9') {
            assert(d[i - start] == c);
            assert(!all_digits(d));
            assert(parse_u64(s@) is None);
            return None;
        }
        let dv: u64 = (c as u32 - 48) as u64;
        if value > (u64::MAX - dv) / 10 {
            proof {
                let sub = s@.subrange(start as int, i + 1);
                assert(sub.last() == c);
                assert(digits_value(sub) == value * 10 + dv);
                assert(value * 10 + dv > u64::MAX) by (nonlinear_arith)
                    requires value > (u64::MAX - dv) / 10, dv <= 9;
                if all_digits(d) {
                    assert(d.take((i - start + 1) as int) =~= sub);
                    lemma_digits_value_prefix(d, (i - start + 1) as int);
                    assert(digits_value(d) > u64::MAX);
                }
                assert(parse_u64(s@) is None);
            }
            return None;
        }
        value = value * 10 + dv;
        i = i + 1;
    }
    assert(s@.subrange(start as int, s@.len() as int) =~= d);
    Some(value)
}

/// A longer digit string is worth at least as much as its prefix.
proof fn lemma_digits_value_prefix(s: Seq<char>, n: int)
    requires
        0 <= n <= s.len(),
        all_digits(s),
    ensures
        digits_value(s.take(n)) <= digits_value(s),
    decreases s.len() - n,
{
    if n < s.len() {
        lemma_digits_value_prefix(s, n + 1);
        assert(s.take(n + 1).drop_last() =~= s.take(n));
        assert('0' <= s.take(n + 1).last());
    } else {
        assert(s.take(n) =~= s);
    }
}


/// Whether two strings hold the same characters.
pub fn str_eq(a: &str, b: &str) -> (r: bool)
    ensures
        r == (a@ == b@),
{
    let x = chars_of(a);
    let y = chars_of(b);
    if x.len() != y.len() {
        return false;
    }
    let mut i: usize = 0;
    while i < x.len()
        invariant
            x@ == a@,
            y@ == b@,
            x@.len() == y@.len(),
            i <= x@.len(),
            forall|j: int| 0 <= j < i ==> x@[j] == y@[j],
        decreases x.len() - i,
    {
        if x[i] != y[i] {
            assert(a@[i as int] != b@[i as int]);
            return false;
        }
        i = i + 1;
    }
    assert(x@ =~= y@);
    true
}

/// An owned copy of a string.
pub fn copy_string(s: &str) -> (r: String)
    ensures
        r@ == s@,
{
    s.to_string()
}


/// What `str::to_lowercase` returns for the characters `s` (Unicode lower-case mapping; it depends
/// on `s` alone).
pub uninterp spec fn lowercase(s: Seq<char>) -> Seq<char>;

/// `str::to_lowercase` (std). Only the name of its result is stated: the full Unicode
/// case mapping is not written out here.
#[verifier::external_body]
pub(crate) fn to_lowercase(s: &str) -> (r: String)
    ensures
        r@ == lowercase(s@),
{
    s.to_lowercase()
}

/// Decimal notation is made of digits and reads back as the number.
pub proof fn lemma_decimal_digits(n: nat)
    ensures
        decimal(n).len() >= 1,
        all_digits(decimal(n)),
        digits_value(decimal(n)) == n,
    decreases n,
{
    if n >= 10 {
        lemma_decimal_digits(n / 10);
        let s = decimal(n / 10);
        let t = s.push(digit_char(n % 10));
        assert(t.drop_last() =~= s);
        assert(((n % 10 + 48) as char) as nat == n % 10 + 48);
        assert forall|i: int| 0 <= i < t.len() implies '0' <= #[trigger] t[i] && t[i] <= '9' by {
            if i < s.len() {
                assert(t[i] == s[i]);
            }
        }
        assert(digits_value(t) == digits_value(s) * 10 + ((t.last() as nat) - 48) as nat);
        assert(t.last() as nat - 48 == n % 10);
        assert((n / 10) * 10 + n % 10 == n);
    } else {
        assert(((n + 48) as char) as nat == n + 48);
        let t = seq![digit_char(n)];
        assert(t.drop_last() =~= Seq::<char>::empty());
        assert(digits_value(Seq::<char>::empty()) == 0);
        assert(digits_value(t) == digits_value(t.drop_last()) * 10 + ((t.last() as nat) - 48) as nat);
    }
}

/// A `u64` written in decimal parses back to itself.
pub proof fn lemma_parse_decimal(n: u64)
    ensures
        parse_u64(decimal(n as nat)) == Some(n),
{
    lemma_decimal_digits(n as nat);
    assert('0' <= decimal(n as nat)[0]);
}

/// Text that starts and ends with something other than whitespace is left as it is by `trim`.
pub proof fn lemma_trim_unpadded(s: Seq<char>)
    requires
        s.len() > 0,
        !is_whitespace(s[0]),
        !is_whitespace(s[s.len() - 1]),
    ensures
        trim(s) == s,
{
    assert(s.subrange(0, s.len() as int) =~= s);
    assert(trimmed(s, s));
    let t = choose|t: Seq<char>| trimmed(s, t);
    lemma_trimmed_unique(s, s, t);
}

/// The first `c` in `a + [c] + b`, where `a` holds no `c`, is right after `a`.
pub proof fn lemma_index_of_separator(a: Seq<char>, c: char, b: Seq<char>)
    requires
        forall|i: int| 0 <= i < a.len() ==> a[i] != c,
    ensures
        index_of(a + seq![c] + b, c) == a.len(),
{
    let s = a + seq![c] + b;
    assert(is_first_index(s, c, a.len() as int));
    let k = choose|k: int| is_first_index(s, c, k);
    if k < a.len() {
        assert(s[k] == a[k]);
    }
    if k > a.len() {
        assert(s[a.len() as int] == c);
    }
}

/// `index_of` is the length when `c` does not occur.
pub proof fn lemma_index_of_absent(s: Seq<char>, c: char)
    requires
        forall|i: int| 0 <= i < s.len() ==> s[i] != c,
    ensures
        index_of(s, c) == s.len(),
{
}

} // verus!
