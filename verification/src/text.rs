//! Text primitives over character sequences: trimming, splitting, joining,
//! replacing, decimal and hexadecimal rendering, and unsigned decimal parsing.
//! Each executable function is tied to a spec function over `Seq<char>`.
use vstd::prelude::*;

verus! {

pub assume_specification[ String::push ](s: &mut String, ch: char)
    ensures
        final(s)@ == old(s)@.push(ch),
;

// ---------------------------------------------------------------------------
// Character classes
// ---------------------------------------------------------------------------
/// Unicode `White_Space`, the property that `char::is_whitespace` tests.
pub open spec fn is_ws(c: char) -> bool {
    let u = c as u32;
    ||| 0x09 <= u <= 0x0D
    ||| u == 0x20
    ||| u == 0x85
    ||| u == 0xA0
    ||| u == 0x1680
    ||| 0x2000 <= u <= 0x200A
    ||| u == 0x2028
    ||| u == 0x2029
    ||| u == 0x202F
    ||| u == 0x205F
    ||| u == 0x3000
}

pub fn is_whitespace_char(c: char) -> (r: bool)
    ensures
        r == is_ws(c),
{
    let u = c as u32;
    (0x09 <= u && u <= 0x0D) || u == 0x20 || u == 0x85 || u == 0xA0 || u == 0x1680 || (0x2000
        <= u && u <= 0x200A) || u == 0x2028 || u == 0x2029 || u == 0x202F || u == 0x205F || u
        == 0x3000
}

pub open spec fn is_digit(c: char) -> bool {
    '0' <= c <= '9'
}

pub open spec fn digit_value(c: char) -> nat {
    (c as u32 - '0' as u32) as nat
}

pub open spec fn digit_char(d: nat) -> char {
    (d + '0' as u32) as char
}

// ---------------------------------------------------------------------------
// Conversions between `str`/`String` and character vectors
// ---------------------------------------------------------------------------
/// The characters of a string slice, in order.
pub fn chars_of(s: &str) -> (v: Vec<char>)
    ensures
        v@ == s@,
{
    let mut v: Vec<char> = Vec::new();
    for c in it: s.chars()
        invariant
            v@ == it.seq().take(it.index() as int),
    {
        v.push(c);
    }
    v
}

/// A string holding `v[from..to]`.
pub fn string_of_range(v: &Vec<char>, from: usize, to: usize) -> (s: String)
    requires
        from <= to <= v.len(),
    ensures
        s@ == v@.subrange(from as int, to as int),
{
    let mut s = String::new();
    let mut i = from;
    while i < to
        invariant
            from <= i <= to <= v.len(),
            s@ == v@.subrange(from as int, i as int),
        decreases to - i,
    {
        s.push(v[i]);
        i = i + 1;
    }
    s
}

/// A string holding all of `v`.
pub fn string_of(v: &Vec<char>) -> (s: String)
    ensures
        s@ == v@,
{
    let s = string_of_range(v, 0, v.len());
    assert(v@.subrange(0, v@.len() as int) =~= v@);
    s
}

/// Appends the characters of `v` to `s`.
pub fn push_chars(s: &mut String, v: &Vec<char>)
    ensures
        final(s)@ == old(s)@ + v@,
{
    let mut i: usize = 0;
    while i < v.len()
        invariant
            i <= v.len(),
            s@ == old(s)@ + v@.take(i as int),
        decreases v.len() - i,
    {
        s.push(v[i]);
        i = i + 1;
        assert(old(s)@ + v@.take(i as int) =~= (old(s)@ + v@.take(i - 1)).push(v@[i - 1]));
    }
    assert(v@.take(v.len() as int) =~= v@);
}

/// Appends the characters of `t` to `s`.
pub fn push_str(s: &mut String, t: &str)
    ensures
        final(s)@ == old(s)@ + t@,
{
    let v = chars_of(t);
    push_chars(s, &v);
}

/// Whether `v[at..]` begins with the characters of `pat`.
pub fn matches_at(v: &Vec<char>, at: usize, pat: &Vec<char>) -> (r: bool)
    requires
        at <= v.len(),
    ensures
        r == (at + pat.len() <= v.len() && v@.subrange(at as int, at + pat.len()) == pat@),
{
    if pat.len() > v.len() - at {
        return false;
    }
    let mut j: usize = 0;
    while j < pat.len()
        invariant
            at + pat.len() <= v.len(),
            j <= pat.len(),
            forall|k: int| 0 <= k < j ==> v@[at + k] == pat@[k],
        decreases pat.len() - j,
    {
        if v[at + j] != pat[j] {
            assert(v@.subrange(at as int, at + pat.len())[j as int] != pat@[j as int]);
            return false;
        }
        j = j + 1;
    }
    assert(v@.subrange(at as int, at + pat.len()) =~= pat@);
    true
}

/// Whether two character vectors are equal.
pub fn chars_eq(a: &Vec<char>, b: &Vec<char>) -> (r: bool)
    ensures
        r == (a@ == b@),
{
    if a.len() != b.len() {
        return false;
    }
    let r = matches_at(a, 0, b);
    assert(a@.subrange(0, b.len() as int) =~= a@);
    r
}

/// Whether the characters of `v` spell `s`.
pub fn chars_eq_str(v: &Vec<char>, s: &str) -> (r: bool)
    ensures
        r == (v@ == s@),
{
    let w = chars_of(s);
    chars_eq(v, &w)
}

// ---------------------------------------------------------------------------
// Trimming
// ---------------------------------------------------------------------------
pub open spec fn trim_start(s: Seq<char>) -> Seq<char>
    decreases s.len(),
{
    if s.len() > 0 && is_ws(s[0]) {
        trim_start(s.drop_first())
    } else {
        s
    }
}

pub open spec fn trim_end(s: Seq<char>) -> Seq<char>
    decreases s.len(),
{
    if s.len() > 0 && is_ws(s.last()) {
        trim_end(s.drop_last())
    } else {
        s
    }
}

/// `str::trim`: leading and trailing white space removed.
pub open spec fn trim(s: Seq<char>) -> Seq<char> {
    trim_end(trim_start(s))
}

/// The bounds `lo..hi` of `trim(v)` inside `v`.
pub fn trim_bounds(v: &Vec<char>) -> (r: (usize, usize))
    ensures
        r.0 <= r.1 <= v.len(),
        trim(v@) == v@.subrange(r.0 as int, r.1 as int),
{
    let mut lo: usize = 0;
    assert(v@.skip(0) =~= v@);
    while lo < v.len() && is_whitespace_char(v[lo])
        invariant
            lo <= v.len(),
            trim_start(v@) == trim_start(v@.skip(lo as int)),
        decreases v.len() - lo,
    {
        assert(v@.skip(lo as int).drop_first() =~= v@.skip(lo + 1));
        lo = lo + 1;
    }
    let ghost t = v@.skip(lo as int);
    assert(trim_start(v@) == t);
    let mut hi: usize = v.len();
    while hi > lo && is_whitespace_char(v[hi - 1])
        invariant
            lo <= hi <= v.len(),
            t == v@.skip(lo as int),
            trim_end(t) == trim_end(v@.subrange(lo as int, hi as int)),
        decreases hi,
    {
        assert(v@.subrange(lo as int, hi as int).drop_last() =~= v@.subrange(lo as int, hi - 1));
        hi = hi - 1;
    }
    assert(v@.skip(lo as int) =~= v@.subrange(lo as int, v.len() as int));
    (lo, hi)
}

/// `trim` of a character vector, as a new vector.
pub fn trim_chars(v: &Vec<char>) -> (r: Vec<char>)
    ensures
        r@ == trim(v@),
{
    let (lo, hi) = trim_bounds(v);
    sub_chars(v, lo, hi)
}

/// `v[from..to]` as a new vector.
pub fn sub_chars(v: &Vec<char>, from: usize, to: usize) -> (r: Vec<char>)
    requires
        from <= to <= v.len(),
    ensures
        r@ == v@.subrange(from as int, to as int),
{
    let mut r: Vec<char> = Vec::new();
    let mut i = from;
    while i < to
        invariant
            from <= i <= to <= v.len(),
            r@ == v@.subrange(from as int, i as int),
        decreases to - i,
    {
        r.push(v[i]);
        i = i + 1;
    }
    r
}

/// `trim` of a string, as a new string.
pub fn trim_string(s: &str) -> (r: String)
    ensures
        r@ == trim(s@),
{
    let v = chars_of(s);
    let (lo, hi) = trim_bounds(&v);
    string_of_range(&v, lo, hi)
}

// ---------------------------------------------------------------------------
// Decimal and hexadecimal rendering
// ---------------------------------------------------------------------------
/// The shortest decimal rendering of `n`, as `{}` prints it.
pub open spec fn dec(n: nat) -> Seq<char>
    decreases n,
{
    if n < 10 {
        seq![digit_char(n)]
    } else {
        dec(n / 10).push(digit_char(n % 10))
    }
}

/// A run of `k` zero characters.
pub open spec fn zeros(k: nat) -> Seq<char> {
    Seq::new(k, |i: int| '0')
}

/// `n` in decimal, left-padded with zeros to at least `width` characters,
/// as `{:0width$}` prints it.
pub open spec fn dec_pad(n: nat, width: nat) -> Seq<char> {
    if dec(n).len() < width {
        zeros((width - dec(n).len()) as nat) + dec(n)
    } else {
        dec(n)
    }
}

pub proof fn lemma_dec_len(n: nat)
    ensures
        dec(n).len() >= 1,
        n < 10 ==> dec(n).len() == 1,
        10 <= n < 100 ==> dec(n).len() == 2,
        100 <= n < 1000 ==> dec(n).len() == 3,
    decreases n,
{
    if n >= 10 {
        lemma_dec_len(n / 10);
    }
}

/// Decimal rendering of `n`.
pub fn dec_chars(n: u64) -> (r: Vec<char>)
    ensures
        r@ == dec(n as nat),
    decreases n,
{
    let d = char_of_digit((n % 10) as u8);
    if n < 10 {
        let mut r: Vec<char> = Vec::new();
        r.push(d);
        assert(r@ =~= seq![digit_char(n as nat)]);
        r
    } else {
        let mut r = dec_chars(n / 10);
        r.push(d);
        r
    }
}

fn char_of_digit(d: u8) -> (c: char)
    requires
        d < 10,
    ensures
        c == digit_char(d as nat),
        is_digit(c),
{
    let c = match d {
        0 => '0',
        1 => '1',
        2 => '2',
        3 => '3',
        4 => '4',
        5 => '5',
        6 => '6',
        7 => '7',
        8 => '8',
        _ => '9',
    };
    c
}

/// Appends `n` in decimal, zero-padded to `width`.
pub fn push_dec_pad(s: &mut String, n: u64, width: usize)
    ensures
        final(s)@ == old(s)@ + dec_pad(n as nat, width as nat),
{
    let d = dec_chars(n);
    if d.len() < width {
        let mut k: usize = d.len();
        let ghost start = s@;
        while k < width
            invariant
                d.len() <= k <= width,
                s@ == start + zeros((k - d.len()) as nat),
            decreases width - k,
        {
            s.push('0');
            k = k + 1;
            assert(zeros((k - d.len()) as nat) =~= zeros((k - 1 - d.len()) as nat).push('0'));
        }
        push_chars(s, &d);
        assert(s@ =~= start + dec_pad(n as nat, width as nat));
    } else {
        push_chars(s, &d);
    }
}

/// Appends `n` in decimal.
pub fn push_dec(s: &mut String, n: u64)
    ensures
        final(s)@ == old(s)@ + dec(n as nat),
{
    let d = dec_chars(n);
    push_chars(s, &d);
}

/// The upper-case hexadecimal digit for `d < 16`.
pub open spec fn hex_upper(d: nat) -> char {
    if d < 10 {
        digit_char(d)
    } else {
        ((d - 10) + 'A' as u32) as char
    }
}

/// `{:02X}` of a byte.
pub open spec fn hex2(b: u8) -> Seq<char> {
    seq![hex_upper((b / 16) as nat), hex_upper((b % 16) as nat)]
}

fn hex_digit_upper(d: u8) -> (c: char)
    requires
        d < 16,
    ensures
        c == hex_upper(d as nat),
{
    if d < 10 {
        char_of_digit(d)
    } else {
        match d {
            10 => 'A',
            11 => 'B',
            12 => 'C',
            13 => 'D',
            14 => 'E',
            _ => 'F',
        }
    }
}

/// Appends `{:02X}` of `b`.
pub fn push_hex2(s: &mut String, b: u8)
    ensures
        final(s)@ == old(s)@ + hex2(b),
{
    let hi = hex_digit_upper(b / 16);
    let lo = hex_digit_upper(b % 16);
    s.push(hi);
    s.push(lo);
    assert(s@ =~= old(s)@ + hex2(b));
}

// ---------------------------------------------------------------------------
// Unsigned decimal parsing, as `str::parse::<u64>` does it
// ---------------------------------------------------------------------------
/// The failure kinds of integer parsing.
#[derive(Clone, Copy, PartialEq, Eq, Debug)]
pub enum IntParseError {
    Empty,
    InvalidDigit,
    PosOverflow,
}

/// Digits after the sign, accumulated left to right; a bad digit is reported
/// before an overflow that a later digit would cause.
pub open spec fn parse_digits(d: Seq<char>, acc: nat) -> Result<u64, IntParseError>
    decreases d.len(),
{
    if d.len() == 0 {
        Ok(acc as u64)
    } else if !is_digit(d[0]) {
        Err(IntParseError::InvalidDigit)
    } else if acc * 10 + digit_value(d[0]) > u64::MAX {
        Err(IntParseError::PosOverflow)
    } else {
        parse_digits(d.drop_first(), acc * 10 + digit_value(d[0]))
    }
}

/// `str::parse::<u64>`: an optional leading `+`, then decimal digits.
pub open spec fn parse_u64(s: Seq<char>) -> Result<u64, IntParseError> {
    if s.len() == 0 {
        Err(IntParseError::Empty)
    } else if s.len() == 1 && (s[0] == '+' || s[0] == '-') {
        Err(IntParseError::InvalidDigit)
    } else if s[0] == '+' {
        parse_digits(s.drop_first(), 0)
    } else {
        parse_digits(s, 0)
    }
}

/// Parses `v[from..to]` as `str::parse::<u64>` does.
pub fn parse_u64_range(v: &Vec<char>, from: usize, to: usize) -> (r: Result<u64, IntParseError>)
    requires
        from <= to <= v.len(),
    ensures
        r == parse_u64(v@.subrange(from as int, to as int)),
{
    let ghost s = v@.subrange(from as int, to as int);
    if from == to {
        return Err(IntParseError::Empty);
    }
    if to - from == 1 && (v[from] == '+' || v[from] == '-') {
        return Err(IntParseError::InvalidDigit);
    }
    let mut i = from;
    if v[from] == '+' {
        i = from + 1;
        assert(s.drop_first() =~= v@.subrange(i as int, to as int));
    } else {
        assert(s =~= v@.subrange(i as int, to as int));
    }
    let mut acc: u64 = 0;
    while i < to
        invariant
            from <= i <= to <= v.len(),
            s == v@.subrange(from as int, to as int),
            parse_u64(s) == parse_digits(v@.subrange(i as int, to as int), acc as nat),
        decreases to - i,
    {
        let c = v[i];
        let ghost rest = v@.subrange(i as int, to as int);
        assert(rest[0] == c);
        if !('0' <= c && c <= '9') {
            assert(!is_digit(rest[0]));
            assert(parse_digits(rest, acc as nat) == Err::<u64, IntParseError>(IntParseError::InvalidDigit));
            return Err(IntParseError::InvalidDigit);
        }
        let d = (c as u32 - '0' as u32) as u64;
        assert(d == digit_value(c));
        if acc > (u64::MAX - d) / 10 {
            assert(acc * 10 + d > u64::MAX) by (nonlinear_arith)
                requires
                    acc > (u64::MAX - d) / 10,
                    d <= 9,
            ;
            assert(parse_digits(rest, acc as nat) == Err::<u64, IntParseError>(IntParseError::PosOverflow));
            return Err(IntParseError::PosOverflow);
        }
        assert(acc * 10 + d <= u64::MAX) by (nonlinear_arith)
            requires
                acc <= (u64::MAX - d) / 10,
                d <= 9,
        ;
        acc = acc * 10 + d;
        assert(rest.drop_first() =~= v@.subrange(i + 1, to as int));
        i = i + 1;
    }
    Ok(acc)
}

/// Parses a whole character vector as `str::parse::<u64>` does.
pub fn parse_u64_chars(v: &Vec<char>) -> (r: Result<u64, IntParseError>)
    ensures
        r == parse_u64(v@),
{
    assert(v@.subrange(0, v.len() as int) =~= v@);
    parse_u64_range(v, 0, v.len())
}

/// Parses a string as `str::parse::<u64>` does.
pub fn parse_u64_str(s: &str) -> (r: Result<u64, IntParseError>)
    ensures
        r == parse_u64(s@),
{
    let v = chars_of(s);
    parse_u64_chars(&v)
}


// ---------------------------------------------------------------------------
// Searching
// ---------------------------------------------------------------------------
/// `pat` occurs in `s` at position `i`.
pub open spec fn occurs_at(s: Seq<char>, pat: Seq<char>, i: int) -> bool {
    0 <= i && i + pat.len() <= s.len() && s.subrange(i, i + pat.len()) == pat
}

/// The first position at or after `k` where `pat` occurs in `s`.
pub open spec fn find_from(s: Seq<char>, pat: Seq<char>, k: int) -> Option<int>
    decreases s.len() + 1 - k,
{
    if k < 0 || k + pat.len() > s.len() {
        None
    } else if s.subrange(k, k + pat.len()) == pat {
        Some(k)
    } else {
        find_from(s, pat, k + 1)
    }
}

/// `str::find`: the first position where `pat` occurs in `s`.
pub open spec fn find(s: Seq<char>, pat: Seq<char>) -> Option<int> {
    find_from(s, pat, 0)
}

pub proof fn lemma_find_from(s: Seq<char>, pat: Seq<char>, k: int)
    requires
        0 <= k,
    ensures
        match find_from(s, pat, k) {
            Some(i) => k <= i && occurs_at(s, pat, i) && forall|j: int|
                k <= j < i ==> !#[trigger] occurs_at(s, pat, j),
            None => forall|j: int| k <= j ==> !#[trigger] occurs_at(s, pat, j),
        },
    decreases s.len() + 1 - k,
{
    if k + pat.len() > s.len() {
    } else if s.subrange(k, k + pat.len()) == pat {
    } else {
        lemma_find_from(s, pat, k + 1);
    }
}

pub proof fn lemma_find(s: Seq<char>, pat: Seq<char>)
    ensures
        match find(s, pat) {
            Some(i) => occurs_at(s, pat, i) && forall|j: int|
                0 <= j < i ==> !#[trigger] occurs_at(s, pat, j),
            None => forall|j: int| 0 <= j ==> !#[trigger] occurs_at(s, pat, j),
        },
{
    lemma_find_from(s, pat, 0);
}

proof fn lemma_occurs_skip(s: Seq<char>, pat: Seq<char>, start: int, j: int)
    requires
        0 <= start <= s.len(),
        0 <= j,
    ensures
        occurs_at(s.skip(start), pat, j) == occurs_at(s, pat, start + j),
{
    if j + pat.len() <= s.len() - start {
        assert(s.skip(start).subrange(j, j + pat.len()) =~= s.subrange(
            start + j,
            start + j + pat.len(),
        ));
    }
}

/// `s` contains `pat`.
pub open spec fn contains(s: Seq<char>, pat: Seq<char>) -> bool {
    exists|i: int| occurs_at(s, pat, i)
}

/// The first position at or after `from` where `pat` occurs in `v`.
pub fn find_chars_from(v: &Vec<char>, pat: &Vec<char>, from: usize) -> (r: Option<usize>)
    requires
        from <= v.len(),
    ensures
        r matches Some(i) ==> Some(i as int) == find_from(v@, pat@, from as int),
        r is None ==> find_from(v@, pat@, from as int) is None,
{
    proof {
        lemma_find_from(v@, pat@, from as int);
    }
    if pat.len() == 0 {
        assert(v@.subrange(from as int, from as int) =~= pat@);
        return Some(from);
    }
    if pat.len() > v.len() {
        return None;
    }
    let mut k = from;
    while k <= v.len() - pat.len()
        invariant
            from <= k <= v.len(),
            1 <= pat.len() <= v.len(),
            forall|j: int| from <= j < k ==> !#[trigger] occurs_at(v@, pat@, j),
        decreases v.len() - k,
    {
        if matches_at(v, k, pat) {
            assert(occurs_at(v@, pat@, k as int));
            proof {
                lemma_find_from(v@, pat@, from as int);
                if find_from(v@, pat@, from as int) is Some {
                    let i = find_from(v@, pat@, from as int)->0;
                    assert(!(i < k));
                    assert(!(k < i));
                }
            }
            return Some(k);
        }
        k = k + 1;
    }
    assert forall|j: int| from <= j implies !#[trigger] occurs_at(v@, pat@, j) by {
        if j >= k {
            assert(j + pat.len() > v.len());
        }
    }
    proof {
        lemma_find_from(v@, pat@, from as int);
        if find_from(v@, pat@, from as int) is Some {
            let i = find_from(v@, pat@, from as int)->0;
            assert(occurs_at(v@, pat@, i));
        }
    }
    None
}

/// Whether `pat` occurs in `v`.
pub fn contains_chars(v: &Vec<char>, pat: &Vec<char>) -> (r: bool)
    ensures
        r == contains(v@, pat@),
{
    proof {
        lemma_find(v@, pat@);
    }
    let r = find_chars_from(v, pat, 0);
    r.is_some()
}

/// Whether `pat` occurs in `s`.
pub fn str_contains(s: &str, pat: &str) -> (r: bool)
    ensures
        r == contains(s@, pat@),
{
    let v = chars_of(s);
    let p = chars_of(pat);
    contains_chars(&v, &p)
}

/// The character sequences held by a sequence of character vectors.
pub open spec fn views(v: Seq<Vec<char>>) -> Seq<Seq<char>> {
    v.map_values(|x: Vec<char>| x@)
}

pub proof fn lemma_views_push(v: Seq<Vec<char>>, x: Vec<char>)
    ensures
        views(v.push(x)) == views(v).push(x@),
{
    assert(views(v.push(x)) =~= views(v).push(x@));
}

// ---------------------------------------------------------------------------
// Splitting, joining, replacing
// ---------------------------------------------------------------------------
/// `str::split` with a non-empty string pattern: the pieces between
/// non-overlapping occurrences found left to right.
pub open spec fn split(s: Seq<char>, pat: Seq<char>) -> Seq<Seq<char>>
    decreases s.len(),
{
    if pat.len() == 0 {
        seq![s]
    } else {
        match find(s, pat) {
            Some(i) => {
                proof {
                    lemma_find(s, pat);
                }
                seq![s.take(i)] + split(s.skip(i + pat.len()), pat)
            },
            None => seq![s],
        }
    }
}

pub proof fn lemma_split_nonempty(s: Seq<char>, pat: Seq<char>)
    ensures
        split(s, pat).len() >= 1,
{
}

/// `pieces.join(sep)`.
pub open spec fn join(parts: Seq<Seq<char>>, sep: Seq<char>) -> Seq<char>
    decreases parts.len(),
{
    if parts.len() == 0 {
        Seq::empty()
    } else if parts.len() == 1 {
        parts[0]
    } else {
        join(parts.drop_last(), sep) + sep + parts.last()
    }
}

/// `str::replace` with a non-empty pattern.
pub open spec fn replace(s: Seq<char>, from: Seq<char>, to: Seq<char>) -> Seq<char> {
    join(split(s, from), to)
}

/// Splits `v` on the non-empty pattern `pat`.
pub fn split_chars(v: &Vec<char>, pat: &Vec<char>) -> (r: Vec<Vec<char>>)
    requires
        pat.len() > 0,
    ensures
        views(r@) == split(v@, pat@),
{
    let mut parts: Vec<Vec<char>> = Vec::new();
    let mut start: usize = 0;
    assert(v@.skip(0) =~= v@);
    loop
        invariant
            start <= v.len(),
            pat.len() > 0,
            views(parts@) + split(v@.skip(start as int), pat@) == split(v@, pat@),
        decreases v.len() - start,
    {
        let ghost t = v@.skip(start as int);
        match find_chars_from(v, pat, start) {
            Some(k) => {
                proof {
                    lemma_find_from(v@, pat@, start as int);
                    lemma_find(t, pat@);
                    assert forall|j: int| 0 <= j implies occurs_at(t, pat@, j) == occurs_at(
                        v@,
                        pat@,
                        start + j,
                    ) by {
                        lemma_occurs_skip(v@, pat@, start as int, j);
                    }
                    assert(occurs_at(t, pat@, k - start));
                    if find(t, pat@) is Some {
                        let i = find(t, pat@)->0;
                        assert(occurs_at(t, pat@, i));
                        assert(occurs_at(v@, pat@, start + i));
                        assert(!(i < k - start));
                        assert(!(k - start < i));
                    }
                    assert(find(t, pat@) == Some(k - start));
                    assert(t.take(k - start) =~= v@.subrange(start as int, k as int));
                    assert(t.skip(k - start + pat.len()) =~= v@.skip(k + pat.len()));
                }
                let piece = sub_chars(v, start, k);
                let ghost before = views(parts@);
                parts.push(piece);
                assert(views(parts@) =~= before.push(piece@));
                start = k + pat.len();
            },
            None => {
                proof {
                    lemma_find_from(v@, pat@, start as int);
                    lemma_find(t, pat@);
                    assert forall|j: int| 0 <= j implies !occurs_at(t, pat@, j) by {
                        lemma_occurs_skip(v@, pat@, start as int, j);
                    }
                    if find(t, pat@) is Some {
                        let i = find(t, pat@)->0;
                        assert(occurs_at(t, pat@, i));
                    }
                    assert(t =~= v@.subrange(start as int, v.len() as int));
                }
                let piece = sub_chars(v, start, v.len());
                let ghost before = views(parts@);
                parts.push(piece);
                assert(views(parts@) =~= before.push(piece@));
                assert(views(parts@) =~= before + split(t, pat@));
                return parts;
            },
        }
    }
}

/// Joins `parts` with `sep` between consecutive parts.
pub fn join_chars(parts: &Vec<Vec<char>>, sep: &Vec<char>) -> (r: Vec<char>)
    ensures
        r@ == join(views(parts@), sep@),
{
    let mut r: Vec<char> = Vec::new();
    let mut i: usize = 0;
    while i < parts.len()
        invariant
            i <= parts.len(),
            r@ == join(views(parts@).take(i as int), sep@),
        decreases parts.len() - i,
    {
        let ghost prefix = views(parts@).take(i as int);
        if i > 0 {
            append_chars(&mut r, sep);
        }
        append_chars(&mut r, &parts[i]);
        i = i + 1;
        proof {
            let next = views(parts@).take(i as int);
            assert(next.drop_last() =~= prefix);
            assert(next.last() == parts[i - 1]@);
            if i == 1 {
                assert(r@ =~= next[0]);
            }
        }
    }
    assert(views(parts@).take(parts.len() as int) =~= views(parts@));
    r
}

/// Appends the characters of `w` to `v`.
pub fn append_chars(v: &mut Vec<char>, w: &Vec<char>)
    ensures
        final(v)@ == old(v)@ + w@,
{
    let mut i: usize = 0;
    while i < w.len()
        invariant
            i <= w.len(),
            v@ == old(v)@ + w@.take(i as int),
        decreases w.len() - i,
    {
        v.push(w[i]);
        i = i + 1;
        assert(old(v)@ + w@.take(i as int) =~= (old(v)@ + w@.take(i - 1)).push(w@[i - 1]));
    }
    assert(w@.take(w.len() as int) =~= w@);
}

/// Replaces every non-overlapping occurrence of the non-empty `from` by `to`.
pub fn replace_chars(v: &Vec<char>, from: &Vec<char>, to: &Vec<char>) -> (r: Vec<char>)
    requires
        from.len() > 0,
    ensures
        r@ == replace(v@, from@, to@),
{
    let parts = split_chars(v, from);
    join_chars(&parts, to)
}

// ---------------------------------------------------------------------------
// Lines
// ---------------------------------------------------------------------------
/// A line without its trailing carriage return, if it has one.
pub open spec fn strip_cr(l: Seq<char>) -> Seq<char> {
    if l.len() > 0 && l.last() == '\r' {
        l.drop_last()
    } else {
        l
    }
}

/// `str::lines`: pieces ended by `\n` (a `\r` before it dropped); a final
/// line ending adds no empty line.
pub open spec fn lines(s: Seq<char>) -> Seq<Seq<char>>
    decreases s.len(),
{
    if s.len() == 0 {
        Seq::empty()
    } else {
        match find(s, seq!['\n']) {
            Some(i) => {
                proof {
                    lemma_find(s, seq!['\n']);
                }
                seq![strip_cr(s.take(i))] + lines(s.skip(i + 1))
            },
            None => seq![s],
        }
    }
}

/// The lines of `v`, as `str::lines` yields them.
pub fn lines_chars(v: &Vec<char>) -> (r: Vec<Vec<char>>)
    ensures
        views(r@) == lines(v@),
{
    let mut out: Vec<Vec<char>> = Vec::new();
    let mut nl: Vec<char> = Vec::new();
    nl.push('\n');
    assert(nl@ =~= seq!['\n']);
    let mut start: usize = 0;
    assert(v@.skip(0) =~= v@);
    while start < v.len()
        invariant
            start <= v.len(),
            nl@ == seq!['\n'],
            views(out@) + lines(v@.skip(start as int)) == lines(v@),
        decreases v.len() - start,
    {
        let ghost t = v@.skip(start as int);
        match find_chars_from(v, &nl, start) {
            Some(k) => {
                proof {
                    lemma_find_from(v@, nl@, start as int);
                    lemma_find(t, nl@);
                    assert forall|j: int| 0 <= j implies occurs_at(t, nl@, j) == occurs_at(
                        v@,
                        nl@,
                        start + j,
                    ) by {
                        lemma_occurs_skip(v@, nl@, start as int, j);
                    }
                    assert(occurs_at(t, nl@, k - start));
                    if find(t, nl@) is Some {
                        let i = find(t, nl@)->0;
                        assert(occurs_at(t, nl@, i));
                        assert(occurs_at(v@, nl@, start + i));
                        assert(!(i < k - start));
                        assert(!(k - start < i));
                    }
                    assert(find(t, nl@) == Some(k - start));
                    assert(t.take(k - start) =~= v@.subrange(start as int, k as int));
                    assert(t.skip(k - start + 1) =~= v@.skip(k + 1));
                }
                let end = if k > start && v[k - 1] == '\r' {
                    k - 1
                } else {
                    k
                };
                let piece = sub_chars(v, start, end);
                proof {
                    let l = v@.subrange(start as int, k as int);
                    if k > start && v@[k - 1] == '\r' {
                        assert(l.drop_last() =~= piece@);
                    } else {
                        assert(l =~= piece@);
                    }
                }
                let ghost before = views(out@);
                out.push(piece);
                assert(views(out@) =~= before.push(piece@));
                start = k + 1;
            },
            None => {
                proof {
                    lemma_find_from(v@, nl@, start as int);
                    lemma_find(t, nl@);
                    assert forall|j: int| 0 <= j implies !occurs_at(t, nl@, j) by {
                        lemma_occurs_skip(v@, nl@, start as int, j);
                    }
                    if find(t, nl@) is Some {
                        let i = find(t, nl@)->0;
                        assert(occurs_at(t, nl@, i));
                    }
                    assert(t =~= v@.subrange(start as int, v.len() as int));
                }
                let piece = sub_chars(v, start, v.len());
                let ghost before = views(out@);
                out.push(piece);
                assert(views(out@) =~= before.push(piece@));
                assert(views(out@) =~= before + lines(t));
                return out;
            },
        }
    }
    assert(v@.skip(start as int) =~= Seq::<char>::empty());
    assert(views(out@) =~= views(out@) + lines(v@.skip(start as int)));
    out
}


// ---------------------------------------------------------------------------
// Case mapping
// ---------------------------------------------------------------------------
/// What `str::to_lowercase` returns for a text (Unicode lowercase mapping).
pub uninterp spec fn lowercase(s: Seq<char>) -> Seq<char>;

/// `str::to_lowercase`: the text under Unicode's lowercase mapping; the
/// result is a function of the text alone.
#[verifier::external_body]
pub(crate) fn to_lowercase(s: &str) -> (r: String)
    ensures
        r@ == lowercase(s@),
{
    s.to_lowercase()
}


/// The characters of each string.
pub open spec fn views_of_strings(v: Seq<String>) -> Seq<Seq<char>> {
    v.map_values(|x: String| x@)
}

/// Joins strings with `sep` between consecutive ones.
pub fn join_strings(parts: &Vec<String>, sep: &str) -> (r: String)
    ensures
        r@ == join(views_of_strings(parts@), sep@),
{
    let mut r = String::new();
    let mut i: usize = 0;
    while i < parts.len()
        invariant
            i <= parts.len(),
            r@ == join(views_of_strings(parts@).take(i as int), sep@),
        decreases parts.len() - i,
    {
        let ghost prefix = views_of_strings(parts@).take(i as int);
        if i > 0 {
            push_str(&mut r, sep);
        }
        push_str(&mut r, parts[i].as_str());
        i = i + 1;
        proof {
            let next = views_of_strings(parts@).take(i as int);
            assert(next.drop_last() =~= prefix);
            assert(next.last() == parts[i - 1]@);
            if i == 1 {
                assert(r@ =~= next[0]);
            }
        }
    }
    assert(views_of_strings(parts@).take(parts.len() as int) =~= views_of_strings(parts@));
    r
}

} // verus!
