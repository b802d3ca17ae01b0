//! Whitespace-separated tokens and decimal numbers over sequences of characters.

use vstd::prelude::*;

verus! {

/// Whether `c` separates tokens: the Unicode `White_Space` code points.
pub open spec fn is_space(c: char) -> bool {
    let u = c as u32;
    ||| 0x09 <= u <= 0x0D
    ||| u == 0x20
    ||| u == 0x85
    ||| u == 0xA0
    ||| u == 0x1680
    ||| 0x2000 <= u <= 0x200A
    ||| u == 0x2028
    ||| u == 0x2029
    ||| u == 0x202F
    ||| u == 0x205F
    ||| u == 0x3000
}

/// Executable form of [`is_space`].
pub fn char_is_space(c: char) -> (b: bool)
    ensures
        b == is_space(c),
{
    let u: u32 = c as u32;
    (0x09 <= u && u <= 0x0D) || u == 0x20 || u == 0x85 || u == 0xA0 || u == 0x1680 || (0x2000 <= u
        && u <= 0x200A) || u == 0x2028 || u == 0x2029 || u == 0x202F || u == 0x205F || u == 0x3000
}

/// The characters of `s`, in order.
pub fn to_chars(s: &str) -> (v: Vec<char>)
    ensures
        v@ == s@,
{
    let mut v: Vec<char> = Vec::new();
    for c in it: s.chars()
        invariant
            v@ == it.seq().take(it.index() as int),
            it.seq() == s@,
    {
        v.push(c);
    }
    v
}

/// `String::push`: the string afterwards is the string before with `c` at its end.
#[verifier::external_body]
pub(crate) fn push_char(s: &mut String, c: char)
    ensures
        final(s)@ == old(s)@.push(c),
{
    s.push(c)
}

/// A string holding the characters of `v`, in order.
pub fn to_string(v: &Vec<char>) -> (s: String)
    ensures
        s@ == v@,
{
    let mut s = String::new();
    let mut i: usize = 0;
    while i < v.len()
        invariant
            i <= v.len(),
            s@ == v@.take(i as int),
        decreases v.len() - i,
    {
        push_char(&mut s, v[i]);
        i = i + 1;
        assert(v@.take(i as int) == v@.take(i - 1).push(v@[i - 1]));
    }
    assert(v@.take(v.len() as int) == v@);
    s
}

/// Where the word that holds position `i` stops: the first position from `i` on,
/// below `end`, that holds a separator, or `end` if there is none.
pub open spec fn word_end(s: Seq<char>, i: int, end: int) -> int
    recommends
        0 <= i <= end <= s.len(),
    decreases end - i,
{
    if i >= end || is_space(s[i]) {
        i
    } else {
        word_end(s, i + 1, end)
    }
}

/// The maximal runs of non-separator characters in `s[i..end)`, in order.
pub open spec fn tokens_in(s: Seq<char>, i: int, end: int) -> Seq<Seq<char>>
    recommends
        0 <= i <= end <= s.len(),
    decreases end - i,
{
    if i >= end {
        Seq::empty()
    } else if is_space(s[i]) {
        tokens_in(s, i + 1, end)
    } else {
        let j = word_end(s, i + 1, end);
        if i < j <= end {
            seq![s.subrange(i, j)] + tokens_in(s, j, end)
        } else {
            Seq::empty()
        }
    }
}

/// `word_end` stays within `[i, end]`, passes no separator, and stops on one
/// unless it reaches `end`.
pub proof fn lemma_word_end(s: Seq<char>, i: int, end: int)
    requires
        0 <= i <= end <= s.len(),
    ensures
        i <= word_end(s, i, end) <= end,
        forall|k: int| i <= k < word_end(s, i, end) ==> !is_space(#[trigger] s[k]),
        word_end(s, i, end) < end ==> is_space(s[word_end(s, i, end)]),
    decreases end - i,
{
    if i < end && !is_space(s[i]) {
        lemma_word_end(s, i + 1, end);
    }
}

/// A run of non-separators from `i` to `j` that is followed by a separator, or by
/// `end`, is where `word_end` stops.
pub proof fn lemma_word_end_is(s: Seq<char>, i: int, j: int, end: int)
    requires
        0 <= i <= j <= end <= s.len(),
        forall|k: int| i <= k < j ==> !is_space(#[trigger] s[k]),
        j == end || is_space(s[j]),
    ensures
        word_end(s, i, end) == j,
    decreases j - i,
{
    if i < j {
        lemma_word_end_is(s, i + 1, j, end);
    }
}

/// Whether `t` can stand as a token: not empty, and free of separators.
pub open spec fn valid_token(t: Seq<char>) -> bool {
    t.len() > 0 && forall|i: int| 0 <= i < t.len() ==> !is_space(#[trigger] t[i])
}

/// Every token of a stretch of text is a valid token.
pub proof fn lemma_tokens_valid(s: Seq<char>, i: int, end: int)
    requires
        0 <= i <= end <= s.len(),
    ensures
        forall|k: int|
            0 <= k < tokens_in(s, i, end).len() ==> valid_token(#[trigger] tokens_in(s, i, end)[k]),
    decreases end - i,
{
    if i >= end {
        assert(tokens_in(s, i, end).len() == 0);
    } else if is_space(s[i]) {
        lemma_tokens_valid(s, i + 1, end);
        assert(tokens_in(s, i, end) == tokens_in(s, i + 1, end));
    } else {
        let j = word_end(s, i + 1, end);
        lemma_word_end(s, i + 1, end);
        lemma_tokens_valid(s, j, end);
        let word = s.subrange(i, j);
        let rest = tokens_in(s, j, end);
        assert(i < j <= end);
        assert(tokens_in(s, i, end) == seq![word] + rest);
        assert(valid_token(word)) by {
            assert forall|k: int| 0 <= k < word.len() implies !is_space(#[trigger] word[k]) by {
                assert(word[k] == s[i + k]);
                if k > 0 {
                    assert(!is_space(s[i + k]));
                }
            }
        }
        assert forall|k: int| 0 <= k < tokens_in(s, i, end).len() implies valid_token(
            #[trigger] tokens_in(s, i, end)[k],
        ) by {
            if k > 0 {
                assert(tokens_in(s, i, end)[k] == rest[k - 1]);
            } else {
                assert(tokens_in(s, i, end)[0] == word);
            }
        }
    }
}

/// Two runs of non-separators with one separator between them, from `a` to
/// `b`, are the two tokens of that stretch.
pub proof fn lemma_two_tokens(s: Seq<char>, a: int, p: int, b: int)
    requires
        0 <= a < p,
        p + 1 < b <= s.len(),
        forall|k: int| a <= k < p ==> !is_space(#[trigger] s[k]),
        is_space(s[p]),
        forall|k: int| p + 1 <= k < b ==> !is_space(#[trigger] s[k]),
    ensures
        tokens_in(s, a, b) == seq![s.subrange(a, p), s.subrange(p + 1, b)],
{
    assert(word_end(s, a + 1, b) == p) by {
        lemma_word_end_is(s, a + 1, p, b);
    }
    assert(word_end(s, p + 2, b) == b) by {
        lemma_word_end_is(s, p + 2, b, b);
    }
    assert(!is_space(s[a]));
    assert(!is_space(s[p + 1]));
    let last = tokens_in(s, b, b);
    assert(last == Seq::<Seq<char>>::empty());
    let second = tokens_in(s, p + 1, b);
    assert(second == seq![s.subrange(p + 1, b)] + last);
    assert(tokens_in(s, p, b) == second);
    assert(tokens_in(s, a, b) == seq![s.subrange(a, p)] + tokens_in(s, p, b));
    assert(seq![s.subrange(a, p)] + (seq![s.subrange(p + 1, b)] + last) =~= seq![
        s.subrange(a, p),
        s.subrange(p + 1, b),
    ]);
}

/// The tokens of `s[start..end)`, each as a vector of its own.
pub fn split_tokens(s: &Vec<char>, start: usize, end: usize) -> (r: Vec<Vec<char>>)
    requires
        start <= end <= s.len(),
    ensures
        r.len() == tokens_in(s@, start as int, end as int).len(),
        forall|k: int| 0 <= k < r.len() ==> (#[trigger] r[k])@ == tokens_in(s@, start as int, end as int)[k],
{
    let mut r: Vec<Vec<char>> = Vec::new();
    let mut i: usize = start;
    let ghost all = tokens_in(s@, start as int, end as int);
    let ghost mut done: Seq<Seq<char>> = Seq::empty();
    while i < end
        invariant
            start <= i <= end <= s.len(),
            all == tokens_in(s@, start as int, end as int),
            all == done + tokens_in(s@, i as int, end as int),
            r.len() == done.len(),
            forall|k: int| 0 <= k < r.len() ==> (#[trigger] r[k])@ == done[k],
        decreases end - i,
    {
        if char_is_space(s[i]) {
            i = i + 1;
        } else {
            let mut word: Vec<char> = Vec::new();
            let first: usize = i;
            word.push(s[i]);
            i = i + 1;
            while i < end && !char_is_space(s[i])
                invariant
                    first < i <= end <= s.len(),
                    word@ == s@.subrange(first as int, i as int),
                    word_end(s@, first + 1, end as int) == word_end(s@, i as int, end as int),
                decreases end - i,
            {
                word.push(s[i]);
                i = i + 1;
                assert(s@.subrange(first as int, i as int) == s@.subrange(first as int, i - 1).push(
                    s@[i - 1],
                ));
            }
            proof {
                let rest = tokens_in(s@, i as int, end as int);
                assert(done + (seq![word@] + rest) == done.push(word@) + rest);
                done = done.push(word@);
            }
            r.push(word);
        }
    }
    assert(all == done);
    r
}

/// Whether `c` is one of the ten ASCII digits.
pub open spec fn is_digit(c: char) -> bool {
    '0' <= c <= '9'
}

/// Whether `s` holds ASCII digits only.
pub open spec fn all_digits(s: Seq<char>) -> bool {
    forall|i: int| 0 <= i < s.len() ==> is_digit(#[trigger] s[i])
}

/// The number that a digit stands for.
pub open spec fn digit_value(c: char) -> nat {
    (c as u32 - 0x30) as nat
}

/// The digit that stands for `d`, for `d` below ten.
pub open spec fn digit_char(d: nat) -> char {
    ((d + 0x30) as u8) as char
}

/// The number that a sequence of digits spells in base ten, most significant
/// digit first.
pub open spec fn digits_value(s: Seq<char>) -> nat
    decreases s.len(),
{
    if s.len() == 0 {
        0
    } else {
        digits_value(s.drop_last()) * 10 + digit_value(s.last())
    }
}

/// The number that one or more digits spell, if it fits in 32 bits.
pub open spec fn digits_to_u32(body: Seq<char>) -> Option<u32> {
    if body.len() > 0 && all_digits(body) && digits_value(body) <= u32::MAX {
        Some(digits_value(body) as u32)
    } else {
        None
    }
}

/// What a token means as an unsigned 32-bit number: an optional `+`, then one or
/// more digits whose value fits. Anything else is no number.
pub open spec fn parse_decimal(tok: Seq<char>) -> Option<u32> {
    if tok.len() > 0 && tok[0] == '+' {
        digits_to_u32(tok.skip(1))
    } else {
        digits_to_u32(tok)
    }
}

/// The shortest spelling of `n` in base ten.
pub open spec fn decimal(n: nat) -> Seq<char>
    decreases n,
{
    if n < 10 {
        seq![digit_char(n)]
    } else {
        decimal(n / 10).push(digit_char(n % 10))
    }
}

/// A spelling never gets smaller when digits are added at its end.
pub proof fn lemma_digits_value_prefix(s: Seq<char>, k: int)
    requires
        0 <= k <= s.len(),
    ensures
        digits_value(s.take(k)) <= digits_value(s),
    decreases s.len() - k,
{
    if k < s.len() {
        lemma_digits_value_prefix(s, k + 1);
        assert(s.take(k + 1).drop_last() == s.take(k));
        assert(digits_value(s.take(k)) <= digits_value(s.take(k + 1))) by (nonlinear_arith)
            requires
                digits_value(s.take(k + 1)) == digits_value(s.take(k)) * 10 + digit_value(
                    s.take(k + 1).last(),
                ),
        ;
    } else {
        assert(s.take(k) == s);
    }
}

/// The spelling of a number is made of digits, is not empty, and spells it.
pub proof fn lemma_decimal(n: nat)
    ensures
        decimal(n).len() > 0,
        all_digits(decimal(n)),
        digits_value(decimal(n)) == n,
        forall|i: int| 0 <= i < decimal(n).len() ==> !is_space(#[trigger] decimal(n)[i]),
        forall|i: int| 0 <= i < decimal(n).len() ==> #[trigger] decimal(n)[i] != '\n',
    decreases n,
{
    if n < 10 {
        assert(seq![digit_char(n)].drop_last() == Seq::<char>::empty());
        assert(digits_value(Seq::<char>::empty()) == 0);
    } else {
        lemma_decimal(n / 10);
        assert(decimal(n).drop_last() == decimal(n / 10));
    }
}

/// Spelling a number and reading it back gives the number.
pub proof fn lemma_parse_decimal_of_decimal(n: u32)
    ensures
        parse_decimal(decimal(n as nat)) == Some(n),
{
    lemma_decimal(n as nat);
}

/// One more digit: what it does to the value and to `all_digits`.
proof fn lemma_digits_step(body: Seq<char>, k: int)
    requires
        0 <= k < body.len(),
    ensures
        digits_value(body.take(k + 1)) == digits_value(body.take(k)) * 10 + digit_value(body[k]),
        all_digits(body.take(k)) && is_digit(body[k]) ==> all_digits(body.take(k + 1)),
        !is_digit(body[k]) ==> !all_digits(body),
{
    assert(body.take(k + 1).drop_last() == body.take(k));
    assert(body.take(k + 1).last() == body[k]);
    if all_digits(body.take(k)) && is_digit(body[k]) {
        assert forall|i: int| 0 <= i < body.take(k + 1).len() implies is_digit(
            #[trigger] body.take(k + 1)[i],
        ) by {
            if i < k {
                assert(body.take(k)[i] == body.take(k + 1)[i]);
            }
        }
    }
}

fn read_digits(tok: &Vec<char>, start: usize) -> (r: Option<u32>)
    requires
        start <= tok.len(),
    ensures
        r == digits_to_u32(tok@.skip(start as int)),
{
    let ghost body = tok@.skip(start as int);
    if start == tok.len() {
        return None;
    }
    let mut acc: u64 = 0;
    let mut i: usize = start;
    assert(digits_value(body.take(0)) == 0);
    while i < tok.len()
        invariant
            start <= i <= tok.len(),
            body == tok@.skip(start as int),
            all_digits(body.take(i - start)),
            acc == digits_value(body.take(i - start)),
            acc <= u32::MAX,
        decreases tok.len() - i,
    {
        let c: char = tok[i];
        proof {
            assert(body[i - start] == c);
            lemma_digits_step(body, i - start);
        }
        if !('0' <= c && c <= '9') {
            return None;
        }
        let d: u64 = (c as u32 - 0x30) as u64;
        let next: u64 = acc * 10 + d;
        if next > 0xFFFF_FFFF {
            proof {
                lemma_digits_value_prefix(body, i - start + 1);
            }
            return None;
        }
        acc = next;
        i = i + 1;
    }
    assert(body.take(i - start) == body);
    Some(acc as u32)
}

/// Reads a token as an unsigned 32-bit number.
pub fn read_u32(tok: &Vec<char>) -> (r: Option<u32>)
    ensures
        r == parse_decimal(tok@),
{
    if tok.len() > 0 && tok[0] == '+' {
        read_digits(tok, 1)
    } else {
        assert(tok@.skip(0) == tok@);
        read_digits(tok, 0)
    }
}

/// Appends the spelling of `n` in base ten to `out`.
pub fn push_decimal(out: &mut String, n: u64)
    ensures
        final(out)@ == old(out)@ + decimal(n as nat),
    decreases n,
{
    if n >= 10 {
        push_decimal(out, n / 10);
    }
    let d: u8 = (n % 10) as u8;
    push_char(out, (d + 0x30) as char);
    assert(final(out)@ == old(out)@ + decimal(n as nat));
}

/// Where the line that holds position `i` stops: the first line feed from `i`
/// on, or the end of `s`.
pub open spec fn line_end(s: Seq<char>, i: int) -> int
    recommends
        0 <= i <= s.len(),
    decreases s.len() - i,
{
    if i >= s.len() || s[i] == '\n' {
        i
    } else {
        line_end(s, i + 1)
    }
}

/// `line_end` stays within `[i, len]`.
pub proof fn lemma_line_end_bounds(s: Seq<char>, i: int)
    requires
        0 <= i <= s.len(),
    ensures
        i <= line_end(s, i) <= s.len(),
    decreases s.len() - i,
{
    if i < s.len() && s[i] != '\n' {
        lemma_line_end_bounds(s, i + 1);
    }
}

/// A stretch from `i` to `j` without a line feed, followed by one or by the end
/// of `s`, is a line.
pub proof fn lemma_line_end_is(s: Seq<char>, i: int, j: int)
    requires
        0 <= i <= j <= s.len(),
        forall|k: int| i <= k < j ==> #[trigger] s[k] != '\n',
        j == s.len() || s[j] == '\n',
    ensures
        line_end(s, i) == j,
    decreases j - i,
{
    if i < j {
        lemma_line_end_is(s, i + 1, j);
    }
}

/// Finds where the line that holds position `i` stops.
pub fn find_line_end(s: &Vec<char>, i: usize) -> (j: usize)
    requires
        i <= s.len(),
    ensures
        i <= j <= s.len(),
        j == line_end(s@, i as int),
{
    let mut j: usize = i;
    while j < s.len() && s[j] != '\n'
        invariant
            i <= j <= s.len(),
            line_end(s@, i as int) == line_end(s@, j as int),
        decreases s.len() - j,
    {
        j = j + 1;
    }
    j
}

/// The contents of each string of `v`, in order.
pub open spec fn strings_view(v: Seq<String>) -> Seq<Seq<char>> {
    Seq::new(v.len(), |i: int| v[i]@)
}

} // verus!
