//! What SRT rendering and SRT parsing do to each other: a timestamp that is
//! rendered parses back to the same milliseconds, and a document rendered
//! from segments parses back to those segments.
use vstd::prelude::*;

use crate::models::SegmentView;
use crate::srt::{
    block_outcome, blocks_outcome, nonblank, split_either, srt_blocks, srt_entries, srt_entry,
    srt_outcome, srt_text, srt_timestamp, timestamp_outcome, Outcome,
};
use crate::text::{
    dec, dec_pad, digit_char, digit_value, find, is_digit, is_ws, join, lemma_find,
    lemma_split_nonempty, lines, occurs_at, parse_digits, parse_u64, replace, split, strip_cr, trim,
    trim_end, trim_start, zeros,
};

verus! {

// ---------------------------------------------------------------------------
// Decimal digits
// ---------------------------------------------------------------------------
proof fn lemma_digit_char(d: nat)
    requires
        d < 10,
    ensures
        is_digit(digit_char(d)),
        digit_value(digit_char(d)) == d,
{
}

/// Every character of `dec(n)` is a decimal digit.
pub(crate) proof fn lemma_dec_digits(n: nat)
    ensures
        dec(n).len() >= 1,
        forall|i: int| 0 <= i < dec(n).len() ==> is_digit(#[trigger] dec(n)[i]),
    decreases n,
{
    if n < 10 {
        lemma_digit_char(n);
    } else {
        lemma_dec_digits(n / 10);
        lemma_digit_char(n % 10);
        let d = dec(n / 10);
        assert forall|i: int| 0 <= i < dec(n).len() implies is_digit(#[trigger] dec(n)[i]) by {
            if i < d.len() {
                assert(dec(n)[i] == d[i]);
            }
        }
    }
}

/// Every character of `dec_pad(n, w)` is a decimal digit.
proof fn lemma_dec_pad_digits(n: nat, w: nat)
    ensures
        dec_pad(n, w).len() >= 1,
        forall|i: int| 0 <= i < dec_pad(n, w).len() ==> is_digit(#[trigger] dec_pad(n, w)[i]),
{
    lemma_dec_digits(n);
    let d = dec(n);
    if d.len() < w {
        let z = zeros((w - d.len()) as nat);
        assert forall|i: int| 0 <= i < dec_pad(n, w).len() implies is_digit(
            #[trigger] dec_pad(n, w)[i],
        ) by {
            if i < z.len() {
                assert(dec_pad(n, w)[i] == z[i]);
            } else {
                assert(dec_pad(n, w)[i] == d[i - z.len()]);
            }
        }
    }
}

/// Appending a digit to digits that parse to `v` gives `v * 10 + digit`.
proof fn lemma_parse_digits_push(s: Seq<char>, c: char, acc: nat, v: u64)
    requires
        parse_digits(s, acc) == Ok::<u64, crate::text::IntParseError>(v),
        is_digit(c),
        v * 10 + digit_value(c) <= u64::MAX,
        acc <= u64::MAX,
    ensures
        parse_digits(s.push(c), acc) == Ok::<u64, crate::text::IntParseError>(
            (v * 10 + digit_value(c)) as u64,
        ),
    decreases s.len(),
{
    let sc = s.push(c);
    if s.len() == 0 {
        assert(v == acc);
        assert(sc.drop_first() =~= Seq::<char>::empty());
        assert(sc[0] == c);
        let next = acc * 10 + digit_value(c);
        assert(parse_digits(sc.drop_first(), next) == Ok::<u64, crate::text::IntParseError>(
            next as u64,
        ));
    } else {
        let next = acc * 10 + digit_value(s[0]);
        assert(sc[0] == s[0]);
        assert(sc.drop_first() =~= s.drop_first().push(c));
        lemma_parse_digits_push(s.drop_first(), c, next, v);
    }
}

/// `dec(n)` parses back to `n`.
proof fn lemma_parse_dec(n: nat)
    requires
        n <= u64::MAX,
    ensures
        parse_digits(dec(n), 0) == Ok::<u64, crate::text::IntParseError>(n as u64),
    decreases n,
{
    if n < 10 {
        lemma_digit_char(n);
        assert(dec(n) == seq![digit_char(n)]);
        assert(dec(n).drop_first() =~= Seq::<char>::empty());
        assert(parse_digits(dec(n).drop_first(), n) == Ok::<u64, crate::text::IntParseError>(
            n as u64,
        ));
    } else {
        lemma_parse_dec(n / 10);
        lemma_digit_char(n % 10);
        lemma_parse_digits_push(dec(n / 10), digit_char(n % 10), 0, (n / 10) as u64);
    }
}

/// Leading zeros do not change what digits parse to.
proof fn lemma_parse_zeros(k: nat, s: Seq<char>)
    ensures
        parse_digits(zeros(k) + s, 0) == parse_digits(s, 0),
    decreases k,
{
    if k > 0 {
        assert((zeros(k) + s)[0] == '0');
        assert((zeros(k) + s).drop_first() =~= zeros((k - 1) as nat) + s);
        lemma_parse_zeros((k - 1) as nat, s);
    } else {
        assert(zeros(k) + s =~= s);
    }
}

/// `dec_pad(n, w)` parses back to `n`.
pub(crate) proof fn lemma_parse_dec_pad(n: nat, w: nat)
    requires
        n <= u64::MAX,
    ensures
        parse_u64(dec_pad(n, w)) == Ok::<u64, crate::text::IntParseError>(n as u64),
{
    lemma_parse_dec(n);
    lemma_dec_pad_digits(n, w);
    let d = dec(n);
    if d.len() < w {
        lemma_parse_zeros((w - d.len()) as nat, d);
    }
    assert(is_digit(dec_pad(n, w)[0]));
}

// ---------------------------------------------------------------------------
// Splitting at `:` and `,`
// ---------------------------------------------------------------------------
proof fn lemma_split_either_first(a: Seq<char>, sep: char, rest: Seq<char>, x: char, y: char)
    requires
        sep == x || sep == y,
        forall|i: int| 0 <= i < a.len() ==> #[trigger] a[i] != x && a[i] != y,
    ensures
        split_either(a + seq![sep] + rest, x, y) == seq![a] + split_either(rest, x, y),
{
    let s = a + seq![sep] + rest;
    crate::srt::lemma_find_either(s, x, y);
    match crate::srt::find_either(s, x, y) {
        Some(i) => {
            if i < a.len() {
                assert(s[i] == a[i]);
            }
            if i > a.len() {
                assert(s[a.len() as int] == sep);
            }
            assert(i == a.len());
        },
        None => {
            assert(s[a.len() as int] == sep);
        },
    }
    assert(s.take(a.len() as int) =~= a);
    assert(s.skip(a.len() + 1int) =~= rest);
}

proof fn lemma_split_either_none(a: Seq<char>, x: char, y: char)
    requires
        forall|i: int| 0 <= i < a.len() ==> #[trigger] a[i] != x && a[i] != y,
    ensures
        split_either(a, x, y) == seq![a],
{
    crate::srt::lemma_find_either(a, x, y);
    match crate::srt::find_either(a, x, y) {
        Some(i) => {
            assert(a[i] != x && a[i] != y);
        },
        None => {},
    }
}

proof fn lemma_digits_avoid(s: Seq<char>, x: char, y: char)
    requires
        forall|i: int| 0 <= i < s.len() ==> is_digit(#[trigger] s[i]),
        !is_digit(x),
        !is_digit(y),
    ensures
        forall|i: int| 0 <= i < s.len() ==> #[trigger] s[i] != x && s[i] != y,
{
}

// ---------------------------------------------------------------------------
// Timestamps
// ---------------------------------------------------------------------------
proof fn lemma_timestamp_fields(ms: u64)
    ensures
        ms == (ms / 3_600_000) * 3_600_000 + ((ms % 3_600_000) / 60_000) * 60_000 + ((ms
            % 60_000) / 1_000) * 1_000 + ms % 1_000,
{
    let h = ms / 3_600_000;
    let r1 = ms % 3_600_000;
    vstd::arithmetic::div_mod::lemma_fundamental_div_mod(ms as int, 3_600_000);
    let m = r1 / 60_000;
    let r2 = r1 % 60_000;
    vstd::arithmetic::div_mod::lemma_fundamental_div_mod(r1 as int, 60_000);
    assert(ms == (h * 60 + m) * 60_000 + r2);
    vstd::arithmetic::div_mod::lemma_fundamental_div_mod_converse(
        ms as int,
        60_000,
        (h * 60 + m) as int,
        r2 as int,
    );
    let sec = r2 / 1_000;
    let r3 = r2 % 1_000;
    vstd::arithmetic::div_mod::lemma_fundamental_div_mod(r2 as int, 1_000);
    assert(ms == (h * 3600 + m * 60 + sec) * 1_000 + r3);
    vstd::arithmetic::div_mod::lemma_fundamental_div_mod_converse(
        ms as int,
        1_000,
        (h * 3600 + m * 60 + sec) as int,
        r3 as int,
    );
}

/// A rendered SRT timestamp parses back to the same number of
/// milliseconds.
pub proof fn lemma_srt_timestamp_round_trip(ms: u64)
    ensures
        timestamp_outcome(srt_timestamp(ms)) == Outcome::Done(ms),
{
    reveal_strlit(":");
    reveal_strlit(",");
    let h = (ms / 3_600_000) as nat;
    let m = ((ms % 3_600_000) / 60_000) as nat;
    let sec = ((ms % 60_000) / 1_000) as nat;
    let milli = (ms % 1_000) as nat;
    let a = dec_pad(h, 2);
    let b = dec_pad(m, 2);
    let c = dec_pad(sec, 2);
    let d = dec_pad(milli, 3);
    lemma_dec_pad_digits(h, 2);
    lemma_dec_pad_digits(m, 2);
    lemma_dec_pad_digits(sec, 2);
    lemma_dec_pad_digits(milli, 3);
    lemma_digits_avoid(a, ':', ',');
    lemma_digits_avoid(b, ':', ',');
    lemma_digits_avoid(c, ':', ',');
    lemma_digits_avoid(d, ':', ',');
    let t = srt_timestamp(ms);
    let rest_c = c + seq![','] + d;
    let rest_b = b + seq![':'] + rest_c;
    assert(t =~= a + seq![':'] + rest_b);
    lemma_split_either_first(a, ':', rest_b, ':', ',');
    lemma_split_either_first(b, ':', rest_c, ':', ',');
    lemma_split_either_first(c, ',', d, ':', ',');
    lemma_split_either_none(d, ':', ',');
    let parts = split_either(t, ':', ',');
    assert(parts =~= seq![a, b, c, d]);
    lemma_parse_dec_pad(h, 2);
    lemma_parse_dec_pad(m, 2);
    lemma_parse_dec_pad(sec, 2);
    lemma_parse_dec_pad(milli, 3);
    lemma_timestamp_fields(ms);
}

// ---------------------------------------------------------------------------
// Occurrences, splitting and joining
// ---------------------------------------------------------------------------
proof fn lemma_occurs_single(s: Seq<char>, c: char, j: int)
    ensures
        occurs_at(s, seq![c], j) == (0 <= j < s.len() && s[j] == c),
{
    if 0 <= j < s.len() {
        assert(s.subrange(j, j + 1) =~= seq![s[j]]);
        if s.subrange(j, j + 1) == seq![c] {
            assert(seq![s[j]][0] == seq![c][0]);
        }
    }
}

proof fn lemma_occurs_pair(s: Seq<char>, c: char, d: char, j: int)
    ensures
        occurs_at(s, seq![c, d], j) == (0 <= j && j + 1 < s.len() && s[j] == c && s[j + 1] == d),
{
    if 0 <= j && j + 1 < s.len() {
        assert(s.subrange(j, j + 2) =~= seq![s[j], s[j + 1]]);
        if s.subrange(j, j + 2) == seq![c, d] {
            assert(seq![s[j], s[j + 1]][0] == seq![c, d][0]);
            assert(seq![s[j], s[j + 1]][1] == seq![c, d][1]);
        }
    }
}

/// An occurrence of `pat` at `j` starts with `pat`'s first character.
proof fn lemma_occurs_first(s: Seq<char>, pat: Seq<char>, j: int)
    requires
        occurs_at(s, pat, j),
        pat.len() > 0,
    ensures
        s[j] == pat[0],
{
    assert(s.subrange(j, j + pat.len())[0] == s[j]);
}

/// Splitting `a + pat + b`, where `pat` does not occur before the end of
/// `a`, gives `a` and then the pieces of `b`.
proof fn lemma_split_at_first(a: Seq<char>, pat: Seq<char>, b: Seq<char>)
    requires
        pat.len() > 0,
        forall|j: int| 0 <= j < a.len() ==> !#[trigger] occurs_at(a + pat + b, pat, j),
    ensures
        split(a + pat + b, pat) == seq![a] + split(b, pat),
{
    let s = a + pat + b;
    assert(s.subrange(a.len() as int, (a.len() + pat.len()) as int) =~= pat);
    assert(occurs_at(s, pat, a.len() as int));
    lemma_find(s, pat);
    match find(s, pat) {
        Some(i) => {
            if i < a.len() {
                assert(!occurs_at(s, pat, i));
            }
            assert(i == a.len());
        },
        None => {},
    }
    assert(s.take(a.len() as int) =~= a);
    assert(s.skip((a.len() + pat.len()) as int) =~= b);
}

/// A text in which `pat` never occurs splits into itself alone.
proof fn lemma_split_whole(s: Seq<char>, pat: Seq<char>)
    requires
        pat.len() > 0,
        forall|j: int| 0 <= j ==> !#[trigger] occurs_at(s, pat, j),
    ensures
        split(s, pat) == seq![s],
{
    lemma_find(s, pat);
    match find(s, pat) {
        Some(i) => {
            assert(occurs_at(s, pat, i));
        },
        None => {},
    }
}

/// Joining puts the first piece, then the separator, then the join of the
/// rest.
proof fn lemma_join_front(parts: Seq<Seq<char>>, sep: Seq<char>)
    requires
        parts.len() >= 2,
    ensures
        join(parts, sep) == parts[0] + sep + join(parts.drop_first(), sep),
    decreases parts.len(),
{
    if parts.len() == 2 {
        assert(parts.drop_last() =~= seq![parts[0]]);
        assert(parts.drop_first() =~= seq![parts[1]]);
        assert(join(parts.drop_last(), sep) == parts[0]);
        assert(join(parts.drop_first(), sep) == parts[1]);
        assert(join(parts, sep) == join(parts.drop_last(), sep) + sep + parts.last());
    } else {
        lemma_join_front(parts.drop_last(), sep);
        assert(parts.drop_last().drop_first() =~= parts.drop_first().drop_last());
        assert(parts.drop_first().last() == parts.last());
        assert(parts.drop_last()[0] == parts[0]);
        assert(join(parts, sep) =~= parts[0] + sep + join(parts.drop_first(), sep));
    }
}

/// Joining the pieces of a split with the pattern gives the text back.
proof fn lemma_join_split(s: Seq<char>, pat: Seq<char>)
    requires
        pat.len() > 0,
    ensures
        join(split(s, pat), pat) == s,
    decreases s.len(),
{
    lemma_find(s, pat);
    match find(s, pat) {
        Some(i) => {
            let rest = s.skip(i + pat.len());
            lemma_split_nonempty(rest, pat);
            let parts = split(s, pat);
            assert(parts =~= seq![s.take(i)] + split(rest, pat));
            lemma_join_front(parts, pat);
            assert(parts.drop_first() =~= split(rest, pat));
            lemma_join_split(rest, pat);
            assert(s.subrange(i, i + pat.len()) == pat);
            assert(s =~= s.take(i) + pat + rest);
        },
        None => {},
    }
}

/// `c` is never directly followed by `d` in `s`.
pub open spec fn no_pair(s: Seq<char>, c: char, d: char) -> bool {
    forall|j: int| 0 <= j < s.len() - 1 ==> !(#[trigger] s[j] == c && s[j + 1] == d)
}

proof fn lemma_no_pair_concat(x: Seq<char>, y: Seq<char>, c: char, d: char)
    requires
        no_pair(x, c, d),
        no_pair(y, c, d),
        x.len() > 0 && y.len() > 0 ==> !(x.last() == c && y[0] == d),
    ensures
        no_pair(x + y, c, d),
{
    let s = x + y;
    assert forall|j: int| 0 <= j < s.len() - 1 implies !(#[trigger] s[j] == c && s[j + 1] == d) by {
        if j + 1 < x.len() {
            assert(s[j] == x[j] && s[j + 1] == x[j + 1]);
        } else if j + 1 == x.len() {
            assert(s[j] == x.last() && s[j + 1] == y[0]);
        } else {
            assert(s[j] == y[j - x.len()] && s[j + 1] == y[j - x.len() + 1]);
        }
    }
}

/// The pieces of `t` between line feeds, when none is empty, show that `t`
/// neither starts nor ends with a line feed and has no two in a row.
proof fn lemma_pieces_nonempty(t: Seq<char>)
    requires
        forall|j: int| 0 <= j < split(t, seq!['\n']).len() ==> (#[trigger] split(t, seq!['\n'])[j]).len() > 0,
    ensures
        t.len() > 0,
        t[0] != '\n',
        t.last() != '\n',
        no_pair(t, '\n', '\n'),
    decreases t.len(),
{
    let nl = seq!['\n'];
    lemma_find(t, nl);
    match find(t, nl) {
        Some(i) => {
            let rest = t.skip(i + 1);
            let parts = split(t, nl);
            assert(parts =~= seq![t.take(i)] + split(rest, nl));
            assert(parts[0].len() > 0);
            assert forall|j: int| 0 <= j < split(rest, nl).len() implies (#[trigger] split(
                rest,
                nl,
            )[j]).len() > 0 by {
                assert(split(rest, nl)[j] == parts[j + 1]);
            }
            lemma_pieces_nonempty(rest);
            assert forall|j: int| 0 <= j < i implies t[j] != '\n' by {
                lemma_occurs_single(t, '\n', j);
            }
            lemma_occurs_single(t, '\n', i);
            assert(t[0] != '\n');
            assert(t.last() == rest.last());
            assert forall|j: int| 0 <= j < t.len() - 1 implies !(#[trigger] t[j] == '\n' && t[j
                + 1] == '\n') by {
                if j < i - 1 {
                } else if j == i - 1 {
                } else if j == i {
                    assert(t[j + 1] == rest[0]);
                } else {
                    assert(t[j] == rest[j - i - 1] && t[j + 1] == rest[j - i]);
                }
            }
        },
        None => {
            assert(split(t, nl)[0] == t);
            assert forall|j: int| 0 <= j < t.len() implies t[j] != '\n' by {
                lemma_occurs_single(t, '\n', j);
            }
        },
    }
}

/// `str::lines` of a text with no carriage return that does not end with a
/// line feed are its pieces between line feeds.
proof fn lemma_lines_as_split(t: Seq<char>)
    requires
        t.len() > 0,
        t.last() != '\n',
        no_pair(t, '\r', '\n'),
    ensures
        lines(t) == split(t, seq!['\n']),
    decreases t.len(),
{
    let nl = seq!['\n'];
    lemma_find(t, nl);
    match find(t, nl) {
        Some(i) => {
            lemma_occurs_single(t, '\n', i);
            let rest = t.skip(i + 1);
            if i > 0 {
                assert(t.take(i).last() == t[i - 1]);
            }
            assert(strip_cr(t.take(i)) == t.take(i));
            assert(rest.last() == t.last());
            assert forall|j: int| 0 <= j < rest.len() - 1 implies !(#[trigger] rest[j] == '\r'
                && rest[j + 1] == '\n') by {
                assert(rest[j] == t[j + i + 1] && rest[j + 1] == t[j + i + 2]);
            }
            lemma_lines_as_split(rest);
        },
        None => {},
    }
}

/// The lines of `a`, a line feed, then `b`: `a` and then the lines of `b`.
proof fn lemma_lines_cons(a: Seq<char>, b: Seq<char>)
    requires
        forall|j: int| 0 <= j < a.len() ==> #[trigger] a[j] != '\n' && a[j] != '\r',
        b.len() > 0,
    ensures
        lines(a + seq!['\n'] + b) == seq![a] + lines(b),
{
    let s = a + seq!['\n'] + b;
    assert forall|j: int| 0 <= j < a.len() implies !#[trigger] occurs_at(s, seq!['\n'], j) by {
        lemma_occurs_single(s, '\n', j);
        assert(s[j] == a[j]);
    }
    lemma_occurs_single(s, '\n', a.len() as int);
    lemma_find(s, seq!['\n']);
    match find(s, seq!['\n']) {
        Some(i) => {
            if i < a.len() {
                assert(!occurs_at(s, seq!['\n'], i));
            }
            assert(i == a.len());
        },
        None => {},
    }
    assert(s.take(a.len() as int) =~= a);
    if a.len() > 0 {
        assert(a.last() == a[a.len() - 1]);
    }
    assert(strip_cr(a) == a);
    assert(s.skip(a.len() + 1int) =~= b);
}

/// Lines that are all non-blank pass the filter unchanged.
proof fn lemma_nonblank_all(ls: Seq<Seq<char>>)
    requires
        forall|i: int| 0 <= i < ls.len() ==> trim(#[trigger] ls[i]).len() > 0,
    ensures
        nonblank(ls) == ls,
    decreases ls.len(),
{
    if ls.len() > 0 {
        lemma_nonblank_all(ls.drop_first());
        assert(ls =~= seq![ls[0]] + ls.drop_first());
    }
}

proof fn lemma_trim_end_first(s: Seq<char>)
    requires
        s.len() > 0,
        !is_ws(s[0]),
    ensures
        trim_end(s).len() > 0,
    decreases s.len(),
{
    if is_ws(s.last()) {
        assert(s.len() >= 2);
        assert(s.drop_last()[0] == s[0]);
        lemma_trim_end_first(s.drop_last());
    }
}

/// A text that starts with a character other than white space keeps
/// something after trimming.
proof fn lemma_trim_nonempty(s: Seq<char>)
    requires
        s.len() > 0,
        !is_ws(s[0]),
    ensures
        trim(s).len() > 0,
{
    assert(trim_start(s) == s);
    lemma_trim_end_first(s);
}

proof fn lemma_trim_end_last(s: Seq<char>)
    ensures
        trim_end(s).len() > 0 ==> !is_ws(trim_end(s).last()),
    decreases s.len(),
{
    if s.len() > 0 && is_ws(s.last()) {
        lemma_trim_end_last(s.drop_last());
    }
}

/// A trimmed text that is not empty ends with a character other than white
/// space.
proof fn lemma_trim_last(s: Seq<char>)
    ensures
        trim(s).len() > 0 ==> !is_ws(trim(s).last()),
{
    lemma_trim_end_last(trim_start(s));
}

proof fn lemma_trim_start_len(s: Seq<char>)
    ensures
        trim_start(s).len() <= s.len(),
    decreases s.len(),
{
    if s.len() > 0 && is_ws(s[0]) {
        lemma_trim_start_len(s.drop_first());
    }
}

proof fn lemma_trim_end_len(s: Seq<char>)
    ensures
        trim_end(s).len() <= s.len(),
    decreases s.len(),
{
    if s.len() > 0 && is_ws(s.last()) {
        lemma_trim_end_len(s.drop_last());
    }
}

proof fn lemma_trim_len(s: Seq<char>)
    ensures
        trim(s).len() <= s.len(),
{
    lemma_trim_start_len(s);
    lemma_trim_end_len(trim_start(s));
}

// ---------------------------------------------------------------------------
// SRT entries and documents
// ---------------------------------------------------------------------------
/// A character of a rendered timestamp.
pub open spec fn timestamp_char(c: char) -> bool {
    is_digit(c) || c == ':' || c == ','
}

proof fn lemma_timestamp_chars(ms: u64)
    ensures
        srt_timestamp(ms).len() > 0,
        is_digit(srt_timestamp(ms)[0]),
        is_digit(srt_timestamp(ms).last()),
        forall|i: int|
            0 <= i < srt_timestamp(ms).len() ==> timestamp_char(#[trigger] srt_timestamp(ms)[i]),
{
    reveal_strlit(":");
    reveal_strlit(",");
    let a = dec_pad((ms / 3_600_000) as nat, 2);
    let b = dec_pad(((ms % 3_600_000) / 60_000) as nat, 2);
    let c = dec_pad(((ms % 60_000) / 1_000) as nat, 2);
    let d = dec_pad((ms % 1_000) as nat, 3);
    lemma_dec_pad_digits((ms / 3_600_000) as nat, 2);
    lemma_dec_pad_digits(((ms % 3_600_000) / 60_000) as nat, 2);
    lemma_dec_pad_digits(((ms % 60_000) / 1_000) as nat, 2);
    lemma_dec_pad_digits((ms % 1_000) as nat, 3);
    let t = srt_timestamp(ms);
    let x1 = a + seq![':'];
    let x2 = x1 + b;
    let x3 = x2 + seq![':'];
    let x4 = x3 + c;
    let x5 = x4 + seq![','];
    assert(t =~= x5 + d);
    assert forall|i: int| 0 <= i < x5.len() implies timestamp_char(#[trigger] x5[i]) by {
        if i >= x4.len() {
        } else if i >= x3.len() {
            assert(x5[i] == c[i - x3.len()]);
        } else if i >= x2.len() {
        } else if i >= x1.len() {
            assert(x5[i] == b[i - x1.len()]);
        } else if i >= a.len() {
        } else {
            assert(x5[i] == a[i]);
        }
    }
    assert forall|i: int| 0 <= i < t.len() implies timestamp_char(#[trigger] t[i]) by {
        if i < x5.len() {
            assert(t[i] == x5[i]);
        } else {
            assert(t[i] == d[i - x5.len()]);
        }
    }
    assert(t[0] == a[0]);
    assert(t.last() == d.last());
}

/// A segment text that comes back unchanged from SRT rendering and
/// parsing: it holds no carriage return directly before a line feed, and
/// none of its lines is blank (so it is not empty either).
pub open spec fn srt_safe_text(t: Seq<char>) -> bool {
    &&& no_pair(t, '\r', '\n')
    &&& forall|j: int|
        0 <= j < split(t, seq!['\n']).len() ==> trim(#[trigger] split(t, seq!['\n'])[j]).len() > 0
}

/// The segment that parsing gives back for the entry numbered `i + 1`,
/// rendered from `s`: its number as the id, its times, and its trimmed
/// source text as both texts.
pub open spec fn reparsed_segment(i: int, s: SegmentView) -> SegmentView {
    SegmentView {
        id: "segment-"@ + dec((i + 1) as nat),
        start_ms: s.start_ms,
        end_ms: s.end_ms,
        source_text: trim(s.source_text),
        translated_text: trim(s.source_text),
    }
}

/// The segments that parsing gives back for the SRT rendering of `segs`.
pub open spec fn reparsed(segs: Seq<SegmentView>) -> Seq<SegmentView> {
    Seq::new(segs.len(), |i: int| reparsed_segment(i, segs[i]))
}

proof fn lemma_no_pair_without(s: Seq<char>, c: char, d: char)
    requires
        forall|j: int| 0 <= j < s.len() ==> #[trigger] s[j] != c,
    ensures
        no_pair(s, c, d),
{
}

/// The time line of an entry: no line break in it, a digit at each end,
/// and the arrow splits it into the two timestamps.
proof fn lemma_time_line(start: u64, end: u64)
    ensures
        ({
            let tl = srt_timestamp(start) + " --> "@ + srt_timestamp(end);
            &&& tl.len() > 0
            &&& is_digit(tl[0])
            &&& is_digit(tl.last())
            &&& forall|j: int| 0 <= j < tl.len() ==> #[trigger] tl[j] != '\n' && tl[j] != '\r'
            &&& split(tl, " --> "@) == seq![srt_timestamp(start), srt_timestamp(end)]
        }),
{
    reveal_strlit(" --> ");
    let arrow = " --> "@;
    let t1 = srt_timestamp(start);
    let t2 = srt_timestamp(end);
    let tl = t1 + arrow + t2;
    lemma_timestamp_chars(start);
    lemma_timestamp_chars(end);
    assert forall|j: int| 0 <= j < tl.len() implies #[trigger] tl[j] != '\n' && tl[j] != '\r'
        && (j < t1.len() ==> tl[j] != ' ') by {
        if j < t1.len() {
            assert(tl[j] == t1[j]);
            assert(timestamp_char(t1[j]));
        } else if j >= t1.len() + arrow.len() {
            assert(tl[j] == t2[j - t1.len() - arrow.len()]);
            assert(timestamp_char(t2[j - t1.len() - arrow.len()]));
        }
    }
    assert(tl[0] == t1[0]);
    assert(tl.last() == t2.last());
    assert forall|j: int| 0 <= j < t1.len() implies !#[trigger] occurs_at(tl, arrow, j) by {
        if occurs_at(tl, arrow, j) {
            lemma_occurs_first(tl, arrow, j);
        }
    }
    lemma_split_at_first(t1, arrow, t2);
    assert forall|j: int| 0 <= j implies !#[trigger] occurs_at(t2, arrow, j) by {
        if occurs_at(t2, arrow, j) {
            lemma_occurs_first(t2, arrow, j);
            assert(timestamp_char(t2[j]));
        }
    }
    lemma_split_whole(t2, arrow);
    assert(seq![t1] + seq![t2] =~= seq![t1, t2]);
}

/// Facts about a safe text: its pieces between line feeds are its lines,
/// none blank and none empty; it starts and ends with no line feed, ends
/// with no carriage return, and has no blank-line break.
proof fn lemma_safe_text(t: Seq<char>)
    requires
        srt_safe_text(t),
        t == trim(t),
    ensures
        t.len() > 0,
        t[0] != '\n',
        t.last() != '\n',
        t.last() != '\r',
        no_pair(t, '\n', '\n'),
        lines(t) == split(t, seq!['\n']),
        split(t, seq!['\n']).len() >= 1,
        join(split(t, seq!['\n']), seq!['\n']) == t,
{
    let pieces = split(t, seq!['\n']);
    assert forall|j: int| 0 <= j < pieces.len() implies (#[trigger] pieces[j]).len() > 0 by {
        lemma_trim_len(pieces[j]);
    }
    lemma_pieces_nonempty(t);
    lemma_trim_last(t);
    lemma_lines_as_split(t);
    lemma_split_nonempty(t, seq!['\n']);
    lemma_join_split(t, seq!['\n']);
}

proof fn lemma_trim_idempotent(s: Seq<char>)
    ensures
        trim(trim(s)) == trim(s),
{
    let t = trim(s);
    lemma_trim_last(s);
    if t.len() > 0 {
        lemma_trim_end_first_kept(s);
        assert(trim_start(t) == t);
        assert(trim_end(t) == t);
    }
}

proof fn lemma_trim_start_first(s: Seq<char>)
    ensures
        trim_start(s).len() > 0 ==> !is_ws(trim_start(s)[0]),
    decreases s.len(),
{
    if s.len() > 0 && is_ws(s[0]) {
        lemma_trim_start_first(s.drop_first());
    }
}

proof fn lemma_trim_end_prefix(s: Seq<char>)
    ensures
        trim_end(s).len() <= s.len(),
        trim_end(s) == s.take(trim_end(s).len() as int),
    decreases s.len(),
{
    if s.len() > 0 && is_ws(s.last()) {
        lemma_trim_end_prefix(s.drop_last());
        assert(s.drop_last().take(trim_end(s).len() as int) =~= s.take(trim_end(s).len() as int));
    } else {
        assert(s.take(s.len() as int) =~= s);
    }
}

/// A trimmed text that is not empty starts with a character other than
/// white space.
proof fn lemma_trim_end_first_kept(s: Seq<char>)
    ensures
        trim(s).len() > 0 ==> !is_ws(trim(s)[0]),
{
    lemma_trim_start_first(s);
    lemma_trim_end_prefix(trim_start(s));
    if trim(s).len() > 0 {
        assert(trim(s)[0] == trim_start(s)[0]);
    }
}

/// The lines of an entry: its number, its time line, then the lines of its
/// text; none is blank.
proof fn lemma_entry_lines(i: int, s: SegmentView)
    requires
        0 <= i,
        srt_safe_text(trim(s.source_text)),
    ensures
        ({
            let ls = seq![
                dec((i + 1) as nat),
                srt_timestamp(s.start_ms) + " --> "@ + srt_timestamp(s.end_ms),
            ] + split(trim(s.source_text), seq!['\n']);
            &&& lines(srt_entry(i, s)) == ls
            &&& nonblank(ls) == ls
        }),
{
    reveal_strlit("\n");
    let nl = seq!['\n'];
    let n = dec((i + 1) as nat);
    let tl = srt_timestamp(s.start_ms) + " --> "@ + srt_timestamp(s.end_ms);
    let t = trim(s.source_text);
    lemma_trim_idempotent(s.source_text);
    lemma_safe_text(t);
    lemma_time_line(s.start_ms, s.end_ms);
    lemma_dec_digits((i + 1) as nat);
    assert forall|j: int| 0 <= j < n.len() implies #[trigger] n[j] != '\n' && n[j] != '\r' by {
        assert(is_digit(n[j]));
    }
    let tail = tl + nl + t;
    assert(srt_entry(i, s) =~= n + nl + tail);
    lemma_lines_cons(tl, t);
    lemma_lines_cons(n, tail);
    let ls = seq![n, tl] + split(t, nl);
    assert(lines(srt_entry(i, s)) =~= ls);
    lemma_trim_nonempty(n);
    lemma_trim_nonempty(tl);
    assert forall|j: int| 0 <= j < ls.len() implies trim(#[trigger] ls[j]).len() > 0 by {
        if j >= 2 {
            assert(ls[j] == split(t, nl)[j - 2]);
        }
    }
    lemma_nonblank_all(ls);
}

/// The characters of an entry: no blank-line break, no carriage return
/// before a line feed, and neither a line feed nor a carriage return at
/// its end.
proof fn lemma_entry_chars(i: int, s: SegmentView)
    requires
        0 <= i,
        srt_safe_text(trim(s.source_text)),
    ensures
        srt_entry(i, s).len() > 0,
        srt_entry(i, s).last() != '\n',
        srt_entry(i, s).last() != '\r',
        no_pair(srt_entry(i, s), '\n', '\n'),
        no_pair(srt_entry(i, s), '\r', '\n'),
{
    reveal_strlit("\n");
    let nl = seq!['\n'];
    let n = dec((i + 1) as nat);
    let tl = srt_timestamp(s.start_ms) + " --> "@ + srt_timestamp(s.end_ms);
    let t = trim(s.source_text);
    lemma_trim_idempotent(s.source_text);
    lemma_safe_text(t);
    lemma_time_line(s.start_ms, s.end_ms);
    lemma_dec_digits((i + 1) as nat);
    assert forall|j: int| 0 <= j < n.len() implies #[trigger] n[j] != '\n' && n[j] != '\r' by {
        assert(is_digit(n[j]));
    }
    lemma_no_pair_without(n, '\n', '\n');
    lemma_no_pair_without(n, '\r', '\n');
    lemma_no_pair_without(tl, '\n', '\n');
    lemma_no_pair_without(tl, '\r', '\n');
    lemma_no_pair_without(nl, '\r', '\n');
    lemma_no_pair_concat(n, nl, '\n', '\n');
    lemma_no_pair_concat(n + nl, tl, '\n', '\n');
    lemma_no_pair_concat(n + nl + tl, nl, '\n', '\n');
    lemma_no_pair_concat(n + nl + tl + nl, t, '\n', '\n');
    lemma_no_pair_concat(n, nl, '\r', '\n');
    lemma_no_pair_concat(n + nl, tl, '\r', '\n');
    lemma_no_pair_concat(n + nl + tl, nl, '\r', '\n');
    lemma_no_pair_concat(n + nl + tl + nl, t, '\r', '\n');
    assert(srt_entry(i, s) =~= n + nl + tl + nl + t);
}

/// One rendered entry parses back into its segment.
proof fn lemma_entry(i: int, s: SegmentView)
    requires
        0 <= i,
        srt_safe_text(trim(s.source_text)),
    ensures
        block_outcome(srt_entry(i, s), i as nat) == Outcome::Done(Some(reparsed_segment(i, s))),
{
    reveal_strlit("\n");
    let t = trim(s.source_text);
    lemma_trim_idempotent(s.source_text);
    lemma_safe_text(t);
    lemma_entry_lines(i, s);
    lemma_time_line(s.start_ms, s.end_ms);
    lemma_srt_timestamp_round_trip(s.start_ms);
    lemma_srt_timestamp_round_trip(s.end_ms);
    let ls = seq![
        dec((i + 1) as nat),
        srt_timestamp(s.start_ms) + " --> "@ + srt_timestamp(s.end_ms),
    ] + split(t, seq!['\n']);
    assert("\n"@ =~= seq!['\n']);
    let e = srt_entry(i, s);
    assert(nonblank(lines(e)) == ls);
    assert(ls.len() >= 3);
    assert(ls.skip(2) =~= split(t, seq!['\n']));
    assert(join(ls.skip(2), "\n"@) == t);
    assert(ls[1] == srt_timestamp(s.start_ms) + " --> "@ + srt_timestamp(s.end_ms));
    let ts = split(ls[1], " --> "@);
    assert(ts.len() == 2);
    assert(ts[0] == srt_timestamp(s.start_ms));
    assert(ts[1] == srt_timestamp(s.end_ms));
    assert(timestamp_outcome(ts[0]) == Outcome::Done(s.start_ms));
    assert(timestamp_outcome(ts[1]) == Outcome::Done(s.end_ms));
    assert((i as nat) + 1 == (i + 1) as nat);
}

/// The blank-line separated pieces of joined entries are the entries.
proof fn lemma_split_entries(parts: Seq<Seq<char>>)
    requires
        parts.len() >= 1,
        forall|i: int|
            0 <= i < parts.len() ==> (#[trigger] parts[i]).len() > 0 && parts[i].last() != '\n'
                && no_pair(parts[i], '\n', '\n'),
    ensures
        split(join(parts, seq!['\n', '\n']), seq!['\n', '\n']) == parts,
    decreases parts.len(),
{
    let nn = seq!['\n', '\n'];
    let p0 = parts[0];
    if parts.len() == 1 {
        assert(join(parts, nn) == p0);
        assert forall|j: int| 0 <= j implies !#[trigger] occurs_at(p0, nn, j) by {
            lemma_occurs_pair(p0, '\n', '\n', j);
        }
        lemma_split_whole(p0, nn);
        assert(seq![p0] =~= parts);
    } else {
        let rest = parts.drop_first();
        lemma_join_front(parts, nn);
        let s = p0 + nn + join(rest, nn);
        assert forall|j: int| 0 <= j < p0.len() implies !#[trigger] occurs_at(s, nn, j) by {
            lemma_occurs_pair(s, '\n', '\n', j);
            if j + 1 < p0.len() {
                assert(s[j] == p0[j] && s[j + 1] == p0[j + 1]);
            } else {
                assert(s[j] == p0.last());
            }
        }
        lemma_split_at_first(p0, nn, join(rest, nn));
        assert forall|i: int| 0 <= i < rest.len() implies (#[trigger] rest[i]).len() > 0
            && rest[i].last() != '\n' && no_pair(rest[i], '\n', '\n') by {
            assert(rest[i] == parts[i + 1]);
        }
        lemma_split_entries(rest);
        assert(seq![p0] + rest =~= parts);
    }
}

/// Joined entries hold no carriage return directly before a line feed.
proof fn lemma_join_entries_crlf(parts: Seq<Seq<char>>)
    requires
        forall|i: int|
            0 <= i < parts.len() ==> (#[trigger] parts[i]).len() > 0 && parts[i].last() != '\r'
                && no_pair(parts[i], '\r', '\n'),
    ensures
        no_pair(join(parts, seq!['\n', '\n']), '\r', '\n'),
        parts.len() > 0 ==> join(parts, seq!['\n', '\n']).len() > 0 && join(
            parts,
            seq!['\n', '\n'],
        ).last() != '\r',
    decreases parts.len(),
{
    let nn = seq!['\n', '\n'];
    if parts.len() == 1 {
        assert(join(parts, nn) == parts[0]);
    } else if parts.len() >= 2 {
        let front = parts.drop_last();
        assert forall|i: int| 0 <= i < front.len() implies (#[trigger] front[i]).len() > 0
            && front[i].last() != '\r' && no_pair(front[i], '\r', '\n') by {
            assert(front[i] == parts[i]);
        }
        lemma_join_entries_crlf(front);
        lemma_no_pair_without(nn, '\r', '\n');
        lemma_no_pair_concat(join(front, nn), nn, '\r', '\n');
        lemma_no_pair_concat(join(front, nn) + nn, parts.last(), '\r', '\n');
        assert(parts.last() == parts[parts.len() - 1]);
    }
}

/// Rendered entries from the `k`-th on parse back into their segments.
proof fn lemma_blocks(segs: Seq<SegmentView>, k: int)
    requires
        0 <= k <= segs.len(),
        forall|i: int| 0 <= i < segs.len() ==> srt_safe_text(trim(#[trigger] segs[i].source_text)),
    ensures
        blocks_outcome(srt_entries(segs).subrange(k, segs.len() as int), k as nat)
            == Outcome::Done(reparsed(segs).subrange(k, segs.len() as int)),
    decreases segs.len() - k,
{
    let entries = srt_entries(segs);
    let n = segs.len() as int;
    let blocks = entries.subrange(k, n);
    if k == n {
        assert(reparsed(segs).subrange(k, n) =~= Seq::<SegmentView>::empty());
    } else {
        lemma_entry(k, segs[k]);
        assert(blocks[0] == srt_entry(k, segs[k]));
        assert(blocks.drop_first() =~= entries.subrange(k + 1, n));
        lemma_blocks(segs, k + 1);
        assert(seq![reparsed_segment(k, segs[k])] + reparsed(segs).subrange(k + 1, n)
            =~= reparsed(segs).subrange(k, n));
    }
}

/// The rendering of no segments parses back to no segments.
proof fn lemma_round_trip_empty(segs: Seq<SegmentView>)
    requires
        segs.len() == 0,
    ensures
        srt_outcome(srt_text(segs)) == Outcome::Done(reparsed(segs)),
{
    reveal_strlit("\r\n");
    reveal_strlit("\n");
    reveal_strlit("\n\n");
    let nn = seq!['\n', '\n'];
    let crlf = seq!['\r', '\n'];
    assert("\n\n"@ =~= nn);
    assert("\r\n"@ =~= crlf);
    assert("\n"@ =~= seq!['\n']);
    let doc = srt_text(segs);
    assert(srt_entries(segs) =~= Seq::<Seq<char>>::empty());
    assert(doc =~= Seq::<char>::empty());
    lemma_split_whole(doc, crlf);
    assert(replace(doc, crlf, seq!['\n']) =~= doc);
    lemma_split_whole(doc, nn);
    assert(srt_blocks(doc) =~= seq![doc]);
    assert(lines(doc) =~= Seq::<Seq<char>>::empty());
    assert(nonblank(Seq::<Seq<char>>::empty()) =~= Seq::<Seq<char>>::empty());
    assert(block_outcome(doc, 0) == Outcome::<Option<SegmentView>>::Done(None));
    assert(seq![doc].drop_first() =~= Seq::<Seq<char>>::empty());
    assert(reparsed(segs) =~= Seq::<SegmentView>::empty());
    assert(seq![doc][0] == doc);
    assert(blocks_outcome(Seq::<Seq<char>>::empty(), 1) == Outcome::Done(
        Seq::<SegmentView>::empty(),
    ));
    assert(blocks_outcome(seq![doc], 0) == Outcome::Done(Seq::<SegmentView>::empty()));
}

/// The rendering of one or more segments splits into their entries.
proof fn lemma_doc_blocks(segs: Seq<SegmentView>)
    requires
        segs.len() > 0,
        forall|i: int| 0 <= i < segs.len() ==> srt_safe_text(trim(#[trigger] segs[i].source_text)),
    ensures
        srt_blocks(srt_text(segs)) == srt_entries(segs),
{
    reveal_strlit("\r\n");
    reveal_strlit("\n");
    reveal_strlit("\n\n");
    let nn = seq!['\n', '\n'];
    let crlf = seq!['\r', '\n'];
    assert("\n\n"@ =~= nn);
    assert("\r\n"@ =~= crlf);
    assert("\n"@ =~= seq!['\n']);
    let entries = srt_entries(segs);
    let doc = srt_text(segs);
    assert(doc == join(entries, nn));
    assert forall|i: int| 0 <= i < entries.len() implies (#[trigger] entries[i]).len() > 0
        && entries[i].last() != '\n' && entries[i].last() != '\r' && no_pair(
        entries[i],
        '\n',
        '\n',
    ) && no_pair(entries[i], '\r', '\n') by {
        lemma_entry_chars(i, segs[i]);
    }
    lemma_join_entries_crlf(entries);
    assert forall|j: int| 0 <= j implies !#[trigger] occurs_at(doc, crlf, j) by {
        lemma_occurs_pair(doc, '\r', '\n', j);
    }
    lemma_split_whole(doc, crlf);
    assert(replace(doc, crlf, seq!['\n']) =~= doc);
    lemma_split_entries(entries);
}

/// Parsing the SRT rendering of segments gives the segments back: entry
/// `i` comes back numbered `i + 1`, with the same times and, as both its
/// texts, the trimmed source text. This holds of every segment whose
/// trimmed source text holds no carriage return before a line feed and no
/// blank line.
pub proof fn lemma_srt_round_trip(segs: Seq<SegmentView>)
    requires
        forall|i: int| 0 <= i < segs.len() ==> srt_safe_text(trim(#[trigger] segs[i].source_text)),
    ensures
        srt_outcome(srt_text(segs)) == Outcome::Done(reparsed(segs)),
{
    let n = segs.len() as int;
    if n == 0 {
        lemma_round_trip_empty(segs);
    } else {
        let entries = srt_entries(segs);
        lemma_doc_blocks(segs);
        lemma_blocks(segs, 0);
        assert(entries.subrange(0, n) =~= entries);
        assert(reparsed(segs).subrange(0, n) =~= reparsed(segs));
    }
}

} // verus!
