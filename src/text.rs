use vstd::prelude::*;

verus! {

/// Unicode `White_Space`, the set that `char::is_whitespace` tests.
pub open spec fn is_whitespace(c: char) -> bool {
    let u = c as u32;
    (0x9 <= u <= 0xd) || u == 0x20 || u == 0x85 || u == 0xa0 || u == 0x1680 || (0x2000 <= u
        <= 0x200a) || u == 0x2028 || u == 0x2029 || u == 0x202f || u == 0x205f || u == 0x3000
}

/// Number of characters before the first newline, or all of them.
pub open spec fn line_len(s: Seq<char>) -> nat
    decreases s.len(),
{
    if s.len() == 0 || s[0] == '\n' {
        0
    } else {
        1 + line_len(s.skip(1))
    }
}

/// The lines of a text: it is split at each newline, and a final newline
/// ends the last line rather than starting an empty one.
pub open spec fn lines(s: Seq<char>) -> Seq<Seq<char>>
    decreases s.len() via lines_decreases
{
    if s.len() == 0 {
        Seq::empty()
    } else if line_len(s) == s.len() {
        seq![s]
    } else {
        seq![s.take(line_len(s) as int)] + lines(s.skip(line_len(s) + 1 as int))
    }
}

/// Number of leading characters that are not whitespace.
pub open spec fn word_len(s: Seq<char>) -> nat
    decreases s.len(),
{
    if s.len() == 0 || is_whitespace(s[0]) {
        0
    } else {
        1 + word_len(s.skip(1))
    }
}

/// The maximal runs of non-whitespace characters, in order.
pub open spec fn tokens(s: Seq<char>) -> Seq<Seq<char>>
    decreases s.len() via tokens_decreases
{
    if s.len() == 0 {
        Seq::empty()
    } else if is_whitespace(s[0]) {
        tokens(s.skip(1))
    } else {
        seq![s.take(word_len(s) as int)] + tokens(s.skip(word_len(s) as int))
    }
}

proof fn lemma_line_len_bound(s: Seq<char>)
    ensures
        line_len(s) <= s.len(),
    decreases s.len(),
{
    if s.len() > 0 && s[0] != '\n' {
        lemma_line_len_bound(s.skip(1));
    }
}

proof fn lemma_word_len_bound(s: Seq<char>)
    ensures
        word_len(s) <= s.len(),
        s.len() > 0 && !is_whitespace(s[0]) ==> word_len(s) >= 1,
    decreases s.len(),
{
    if s.len() > 0 && !is_whitespace(s[0]) {
        lemma_word_len_bound(s.skip(1));
    }
}

#[via_fn]
proof fn lines_decreases(s: Seq<char>) {
    lemma_line_len_bound(s);
}

#[via_fn]
proof fn tokens_decreases(s: Seq<char>) {
    lemma_word_len_bound(s);
}

/// The pieces of `s` that the index pairs in `spans` delimit.
pub open spec fn spans_view(s: Seq<char>, spans: Seq<(usize, usize)>) -> Seq<Seq<char>> {
    spans.map_values(|p: (usize, usize)| s.subrange(p.0 as int, p.1 as int))
}

pub open spec fn is_comment(t: Seq<char>) -> bool {
    t.len() >= 2 && t[0] == '/' && t[1] == '/'
}

pub open spec fn is_label(t: Seq<char>) -> bool {
    t.len() >= 1 && t[0] == ':'
}

pub open spec fn is_digit(c: char) -> bool {
    '0' <= c <= '9'
}

pub open spec fn digit_value(c: char) -> nat {
    (c as u32 - '0' as u32) as nat
}

pub open spec fn all_digits(d: Seq<char>) -> bool {
    forall|i: int| 0 <= i < d.len() ==> is_digit(#[trigger] d[i])
}

/// The value of a string of decimal digits, most significant first.
pub open spec fn digits_value(d: Seq<char>) -> nat
    decreases d.len(),
{
    if d.len() == 0 {
        0
    } else {
        digits_value(d.drop_last()) * 10 + digit_value(d.last())
    }
}

/// The digits of an unsigned literal, after an optional leading `+`.
pub open spec fn unsigned_digits(t: Seq<char>) -> Seq<char> {
    if t.len() > 0 && t[0] == '+' {
        t.skip(1)
    } else {
        t
    }
}

/// What parsing `t` as a `u64` gives: an optional `+`, then one or more
/// decimal digits whose value fits in 64 bits.
pub open spec fn parse_u64(t: Seq<char>) -> Option<u64> {
    let d = unsigned_digits(t);
    if d.len() > 0 && all_digits(d) && digits_value(d) <= u64::MAX {
        Some(digits_value(d) as u64)
    } else {
        None
    }
}

pub open spec fn digit_char(d: nat) -> char {
    seq!['0', '1', '2', '3', '4', '5', '6', '7', '8', '9'][d as int]
}

/// The decimal representation of `n`, without leading zeros.
pub open spec fn decimal(n: nat) -> Seq<char>
    decreases n,
{
    if n < 10 {
        seq![digit_char(n)]
    } else {
        decimal(n / 10).push(digit_char(n % 10))
    }
}

/// The characters of `s`, in order.
pub fn chars_of(s: &str) -> (r: Vec<char>)
    ensures
        r@ == s@,
{
    let mut out: Vec<char> = Vec::new();
    for c in it: s.chars()
        invariant
            it.seq() == s@,
            out@ == s@.take(it.index() as int),
    {
        out.push(c);
        assert(out@ =~= s@.take(it.index() as int + 1));
    }
    assert(out@ =~= s@);
    out
}

/// Relies on `String: FromIterator<char>`: collecting characters yields the
/// string made of exactly those characters, in order.
#[verifier::external_body]
pub(crate) fn string_from_chars(cs: &[char]) -> (r: String)
    ensures
        r@ == cs@,
{
    cs.iter().collect()
}

pub fn is_whitespace_char(c: char) -> (r: bool)
    ensures
        r == is_whitespace(c),
{
    let u = c as u32;
    (0x9 <= u && u <= 0xd) || u == 0x20 || u == 0x85 || u == 0xa0 || u == 0x1680 || (0x2000 <= u
        && u <= 0x200a) || u == 0x2028 || u == 0x2029 || u == 0x202f || u == 0x205f || u == 0x3000
}

/// Whether the characters of `t` are those of `lit`.
pub fn chars_eq(t: &[char], lit: &str) -> (r: bool)
    ensures
        r == (t@ == lit@),
{
    let n = lit.unicode_len();
    if t.len() != n {
        return false;
    }
    let mut i: usize = 0;
    while i < n
        invariant
            n == lit@.len(),
            t@.len() == n,
            i <= n,
            forall|j: int| 0 <= j < i ==> t@[j] == lit@[j],
        decreases n - i,
    {
        if t[i] != lit.get_char(i) {
            return false;
        }
        i = i + 1;
    }
    assert(t@ =~= lit@);
    true
}

pub fn is_comment_token(t: &[char]) -> (r: bool)
    ensures
        r == is_comment(t@),
{
    t.len() >= 2 && t[0] == '/' && t[1] == '/'
}

pub fn is_label_token(t: &[char]) -> (r: bool)
    ensures
        r == is_label(t@),
{
    t.len() >= 1 && t[0] == ':'
}

proof fn lemma_line_len(s: Seq<char>, k: int)
    requires
        0 <= k <= s.len(),
        forall|j: int| 0 <= j < k ==> s[j] != '\n',
        k == s.len() || s[k] == '\n',
    ensures
        line_len(s) == k,
    decreases k,
{
    if k > 0 {
        lemma_line_len(s.skip(1), k - 1);
    }
}

proof fn lemma_word_len(s: Seq<char>, k: int)
    requires
        0 <= k <= s.len(),
        forall|j: int| 0 <= j < k ==> !is_whitespace(#[trigger] s[j]),
        k == s.len() || is_whitespace(s[k]),
    ensures
        word_len(s) == k,
    decreases k,
{
    if k > 0 {
        lemma_word_len(s.skip(1), k - 1);
    }
}

/// The index pairs of the lines of `cs`.
pub fn line_spans(cs: &[char]) -> (r: Vec<(usize, usize)>)
    ensures
        spans_view(cs@, r@) == lines(cs@),
        forall|i: int| 0 <= i < r@.len() ==> #[trigger] r@[i].0 <= r@[i].1 <= cs@.len(),
{
    let mut out: Vec<(usize, usize)> = Vec::new();
    let mut pos: usize = 0;
    assert(cs@.subrange(0, cs@.len() as int) =~= cs@);
    assert(spans_view(cs@, out@) + lines(cs@) =~= lines(cs@));
    while pos < cs.len()
        invariant
            pos <= cs@.len(),
            spans_view(cs@, out@) + lines(cs@.subrange(pos as int, cs@.len() as int)) == lines(
                cs@,
            ),
            forall|i: int| 0 <= i < out@.len() ==> #[trigger] out@[i].0 <= out@[i].1 <= cs@.len(),
        decreases cs@.len() - pos,
    {
        let ghost rest = cs@.subrange(pos as int, cs@.len() as int);
        let start = pos;
        while pos < cs.len() && cs[pos] != '\n'
            invariant
                start <= pos <= cs@.len(),
                forall|j: int| start <= j < pos ==> cs@[j] != '\n',
            decreases cs@.len() - pos,
        {
            pos = pos + 1;
        }
        proof {
            lemma_line_len(rest, pos - start);
        }
        let ghost old_out = out@;
        out.push((start, pos));
        proof {
            assert(rest.take(pos - start) =~= cs@.subrange(start as int, pos as int));
            assert(spans_view(cs@, out@) =~= spans_view(cs@, old_out).push(
                cs@.subrange(start as int, pos as int),
            ));
        }
        if pos < cs.len() {
            pos = pos + 1;
            proof {
                assert(rest.skip(line_len(rest) + 1 as int) =~= cs@.subrange(pos as int, cs@.len() as int));
                assert(spans_view(cs@, old_out) + lines(rest) =~= spans_view(cs@, out@) + lines(
                    cs@.subrange(pos as int, cs@.len() as int),
                ));
            }
        } else {
            proof {
                assert(rest =~= cs@.subrange(start as int, pos as int));
                assert(lines(cs@.subrange(pos as int, cs@.len() as int)) =~= Seq::empty());
                assert(spans_view(cs@, old_out) + lines(rest) =~= spans_view(cs@, out@) + lines(
                    cs@.subrange(pos as int, cs@.len() as int),
                ));
            }
        }
    }
    assert(cs@.subrange(pos as int, cs@.len() as int) =~= Seq::empty());
    assert(spans_view(cs@, out@) + Seq::<Seq<char>>::empty() =~= spans_view(cs@, out@));
    out
}

/// The index pairs of the tokens of `cs[lo..hi]`.
pub fn token_spans(cs: &[char], lo: usize, hi: usize) -> (r: Vec<(usize, usize)>)
    requires
        lo <= hi <= cs@.len(),
    ensures
        spans_view(cs@, r@) == tokens(cs@.subrange(lo as int, hi as int)),
        forall|i: int| 0 <= i < r@.len() ==> #[trigger] r@[i].0 <= r@[i].1 <= hi,
{
    let mut out: Vec<(usize, usize)> = Vec::new();
    let mut pos: usize = lo;
    assert(spans_view(cs@, out@) + tokens(cs@.subrange(lo as int, hi as int)) =~= tokens(
        cs@.subrange(lo as int, hi as int),
    ));
    while pos < hi
        invariant
            lo <= pos <= hi <= cs@.len(),
            spans_view(cs@, out@) + tokens(cs@.subrange(pos as int, hi as int)) == tokens(
                cs@.subrange(lo as int, hi as int),
            ),
            forall|i: int| 0 <= i < out@.len() ==> #[trigger] out@[i].0 <= out@[i].1 <= hi,
        decreases hi - pos,
    {
        let ghost rest = cs@.subrange(pos as int, hi as int);
        if is_whitespace_char(cs[pos]) {
            pos = pos + 1;
            assert(rest.skip(1) =~= cs@.subrange(pos as int, hi as int));
        } else {
            let start = pos;
            while pos < hi && !is_whitespace_char(cs[pos])
                invariant
                    start <= pos <= hi <= cs@.len(),
                    forall|j: int| start <= j < pos ==> !is_whitespace(#[trigger] cs@[j]),
                decreases hi - pos,
            {
                pos = pos + 1;
            }
            proof {
                assert forall|j: int| 0 <= j < pos - start implies !is_whitespace(
                    #[trigger] rest[j],
                ) by {
                    assert(rest[j] == cs@[start + j]);
                }
                lemma_word_len(rest, pos - start);
            }
            let ghost old_out = out@;
            out.push((start, pos));
            proof {
                assert(rest.take(pos - start) =~= cs@.subrange(start as int, pos as int));
                assert(rest.skip(pos - start) =~= cs@.subrange(pos as int, hi as int));
                assert(spans_view(cs@, out@) =~= spans_view(cs@, old_out).push(
                    cs@.subrange(start as int, pos as int),
                ));
                assert(spans_view(cs@, old_out) + tokens(rest) =~= spans_view(cs@, out@) + tokens(
                    cs@.subrange(pos as int, hi as int),
                ));
            }
        }
    }
    assert(cs@.subrange(pos as int, hi as int) =~= Seq::empty());
    assert(spans_view(cs@, out@) + Seq::<Seq<char>>::empty() =~= spans_view(cs@, out@));
    out
}

proof fn lemma_digits_value_prefix(d: Seq<char>, k: int)
    requires
        0 <= k <= d.len(),
    ensures
        digits_value(d.take(k)) <= digits_value(d),
    decreases d.len(),
{
    if k < d.len() {
        assert(d.drop_last().take(k) =~= d.take(k));
        lemma_digits_value_prefix(d.drop_last(), k);
    } else {
        assert(d.take(k) =~= d);
    }
}

/// Parses `t` as a `u64` literal.
pub fn parse_u64_chars(t: &[char]) -> (r: Option<u64>)
    ensures
        r == parse_u64(t@),
{
    let mut start: usize = 0;
    if t.len() > 0 && t[0] == '+' {
        start = 1;
    }
    let ghost d = unsigned_digits(t@);
    assert(d =~= t@.subrange(start as int, t@.len() as int));
    if start == t.len() {
        return None;
    }
    let mut v: u64 = 0;
    let mut i: usize = start;
    while i < t.len()
        invariant
            start <= i <= t@.len(),
            d == unsigned_digits(t@),
            d == t@.subrange(start as int, t@.len() as int),
            forall|j: int| 0 <= j < i - start ==> is_digit(#[trigger] d[j]),
            v as nat == digits_value(d.take(i - start)),
        decreases t@.len() - i,
    {
        let c = t[i];
        assert(d[i - start] == c);
        if !('0' <= c && c <= '9') {
            assert(!is_digit(d[i - start]));
            assert(!all_digits(d));
            return None;
        }
        let dv = (c as u32 - '0' as u32) as u64;
        assert(d.take(i - start + 1).drop_last() =~= d.take(i - start));
        assert(d.take(i - start + 1).last() == c);
        if v > (u64::MAX - dv) / 10 {
            proof {
                lemma_digits_value_prefix(d, i - start + 1);
                assert(v * 10 + dv > u64::MAX) by (nonlinear_arith)
                    requires
                        v > (u64::MAX - dv) / 10,
                        dv <= 9,
                ;
            }
            return None;
        }
        v = v * 10 + dv;
        i = i + 1;
    }
    assert(d.take(i - start) =~= d);
    Some(v)
}

/// Appends the decimal representation of `v`.
pub fn push_decimal(out: &mut Vec<char>, v: u64)
    ensures
        final(out)@ == old(out)@ + decimal(v as nat),
    decreases v,
{
    if v >= 10 {
        push_decimal(out, v / 10);
    }
    let c = match v % 10 {
        0 => '0',
        1 => '1',
        2 => '2',
        3 => '3',
        4 => '4',
        5 => '5',
        6 => '6',
        7 => '7',
        8 => '8',
        _ => '9',
    };
    out.push(c);
    assert(final(out)@ =~= old(out)@ + decimal(v as nat));
}

/// Appends the characters of `s`.
pub fn push_str(out: &mut Vec<char>, s: &str)
    ensures
        final(out)@ == old(out)@ + s@,
{
    let n = s.unicode_len();
    let mut i: usize = 0;
    while i < n
        invariant
            n == s@.len(),
            i <= n,
            out@ == old(out)@ + s@.take(i as int),
        decreases n - i,
    {
        out.push(s.get_char(i));
        i = i + 1;
        assert(out@ =~= old(out)@ + s@.take(i as int));
    }
    assert(s@.take(n as int) =~= s@);
}

pub open spec fn has_no_newline(t: Seq<char>) -> bool {
    forall|i: int| 0 <= i < t.len() ==> #[trigger] t[i] != '\n'
}

pub open spec fn is_word(t: Seq<char>) -> bool {
    t.len() > 0 && forall|i: int| 0 <= i < t.len() ==> !is_whitespace(#[trigger] t[i])
}

proof fn lemma_line_len_concat(a: Seq<char>, b: Seq<char>)
    requires
        line_len(a) < a.len(),
    ensures
        line_len(a + b) == line_len(a),
    decreases a.len(),
{
    if a[0] != '\n' {
        assert((a + b).skip(1) =~= a.skip(1) + b);
        lemma_line_len_concat(a.skip(1), b);
    }
}

/// Splitting at newlines distributes over a concatenation whose first part
/// is empty or ends with a newline.
pub proof fn lemma_lines_concat(a: Seq<char>, b: Seq<char>)
    requires
        a.len() == 0 || a.last() == '\n',
    ensures
        lines(a + b) == lines(a) + lines(b),
    decreases a.len(),
{
    if a.len() == 0 {
        assert(a + b =~= b);
        assert(lines(a) =~= Seq::<Seq<char>>::empty());
        assert(lines(a) + lines(b) =~= lines(b));
    } else {
        lemma_line_len_bound(a);
        if line_len(a) == a.len() {
            lemma_line_len_last(a);
        }
        lemma_line_len_concat(a, b);
        let n = line_len(a) as int;
        assert((a + b).take(n) =~= a.take(n));
        assert((a + b).skip(n + 1) =~= a.skip(n + 1) + b);
        let rest = a.skip(n + 1);
        assert(rest.len() == 0 || rest.last() == a.last());
        lemma_lines_concat(rest, b);
        assert(lines(a + b) =~= lines(a) + lines(b));
    }
}

proof fn lemma_line_len_last(a: Seq<char>)
    requires
        a.len() > 0,
        a.last() == '\n',
    ensures
        line_len(a) < a.len(),
    decreases a.len(),
{
    if a[0] != '\n' {
        lemma_line_len_last(a.skip(1));
    }
}

/// A text without newlines, followed by one, is a single line.
pub proof fn lemma_single_line(t: Seq<char>)
    requires
        has_no_newline(t),
    ensures
        lines(t + seq!['\n']) == seq![t],
{
    let a = t + seq!['\n'];
    lemma_line_len(a, t.len() as int);
    assert(a.take(t.len() as int) =~= t);
    let rest = a.skip(t.len() + 1 as int);
    assert(rest =~= Seq::<char>::empty());
    assert(lines(rest) =~= Seq::<Seq<char>>::empty());
    assert(lines(a) =~= seq![t]);
}

/// A word is its own single token.
pub proof fn lemma_tokens_word(w: Seq<char>)
    requires
        is_word(w),
    ensures
        tokens(w) == seq![w],
{
    assert(!is_whitespace(w[0]));
    lemma_word_len(w, w.len() as int);
    assert(w.take(w.len() as int) =~= w);
    let rest = w.skip(w.len() as int);
    assert(rest =~= Seq::<char>::empty());
    assert(tokens(rest) =~= Seq::<Seq<char>>::empty());
    assert(tokens(w) =~= seq![w]);
}

/// A word, a space, and a second word make two tokens.
pub proof fn lemma_tokens_two_words(w: Seq<char>, d: Seq<char>)
    requires
        is_word(w),
        is_word(d),
    ensures
        tokens(w + seq![' '] + d) == seq![w, d],
{
    let t = w + seq![' '] + d;
    lemma_word_len(t, w.len() as int);
    assert(t.take(w.len() as int) =~= w);
    assert(!is_whitespace(t[0]));
    assert(t.take(w.len() as int) =~= w);
    let rest = t.skip(w.len() as int);
    assert(rest[0] == ' ');
    assert(rest.skip(1) =~= d);
    lemma_tokens_word(d);
    assert(tokens(rest) == tokens(d));
    assert(tokens(t) =~= seq![w, d]);
}

proof fn lemma_digit_char(d: nat)
    requires
        d < 10,
    ensures
        is_digit(digit_char(d)),
        digit_value(digit_char(d)) == d,
        !is_whitespace(digit_char(d)),
        digit_char(d) != '\n',
        digit_char(d) != '+',
{
    let ds = seq!['0', '1', '2', '3', '4', '5', '6', '7', '8', '9'];
    assert(digit_char(d) == ds[d as int]);
    if d == 0 { assert(ds[0] == '0'); }
    else if d == 1 { assert(ds[1] == '1'); }
    else if d == 2 { assert(ds[2] == '2'); }
    else if d == 3 { assert(ds[3] == '3'); }
    else if d == 4 { assert(ds[4] == '4'); }
    else if d == 5 { assert(ds[5] == '5'); }
    else if d == 6 { assert(ds[6] == '6'); }
    else if d == 7 { assert(ds[7] == '7'); }
    else if d == 8 { assert(ds[8] == '8'); }
    else { assert(ds[9] == '9'); }
}

/// The decimal representation of `n` is a word of digits whose value is `n`.
pub proof fn lemma_decimal(n: nat)
    ensures
        decimal(n).len() > 0,
        all_digits(decimal(n)),
        is_word(decimal(n)),
        has_no_newline(decimal(n)),
        digits_value(decimal(n)) == n,
        decimal(n)[0] != '+',
    decreases n,
{
    let d = decimal(n);
    lemma_digit_char(n % 10);
    assert(d.last() == digit_char(n % 10));
    if n >= 10 {
        lemma_decimal(n / 10);
        assert(d.drop_last() =~= decimal(n / 10));
        assert((n / 10) * 10 + n % 10 == n) by (nonlinear_arith);
    } else {
        assert(d.drop_last() =~= Seq::<char>::empty());
        assert(digits_value(d.drop_last()) == 0);
        assert(n % 10 == n);
    }
    assert forall|i: int| 0 <= i < d.len() implies is_digit(#[trigger] d[i]) && !is_whitespace(
        d[i],
    ) && d[i] != '\n' && (i == 0 ==> d[i] != '+') by {
        if n >= 10 && i < d.len() - 1 {
            assert(d[i] == decimal(n / 10)[i]);
        }
    }
}

/// A `u64` written in decimal parses back to itself.
pub proof fn lemma_parse_decimal(v: u64)
    ensures
        parse_u64(decimal(v as nat)) == Some(v),
{
    lemma_decimal(v as nat);
}

} // verus!
