//! Character-level text helpers: decimal rendering and parsing, string
//! equality, and the small transforms applied to raw upstream field text
//! (removing escaped quotes, removing quote characters, trimming quotes).

use vstd::prelude::*;

verus! {

/// Relies on `String::push`: appends exactly one character at the end.
#[verifier::external_body]
pub(crate) fn push_char(s: &mut String, c: char)
    ensures
        final(s)@ == old(s)@.push(c),
{
    s.push(c);
}

pub open spec fn is_digit_char(c: char) -> bool {
    48 <= (c as u32) && (c as u32) <= 57
}

pub open spec fn digit_val(c: char) -> nat {
    ((c as u32) - 48) as nat
}

pub open spec fn all_digits(s: Seq<char>) -> bool {
    forall|i: int| 0 <= i < s.len() ==> is_digit_char(s[i])
}

/// The character for a single decimal digit.
pub open spec fn digit_char(n: int) -> char {
    if n == 0 { '0' }
    else if n == 1 { '1' }
    else if n == 2 { '2' }
    else if n == 3 { '3' }
    else if n == 4 { '4' }
    else if n == 5 { '5' }
    else if n == 6 { '6' }
    else if n == 7 { '7' }
    else if n == 8 { '8' }
    else { '9' }
}

/// Value of a digit string, most significant digit first.
pub open spec fn dec_val(s: Seq<char>) -> nat
    decreases s.len(),
{
    if s.len() == 0 {
        0
    } else {
        dec_val(s.drop_last()) * 10 + digit_val(s.last())
    }
}

/// Decimal rendering of a natural number, without leading zeros.
pub open spec fn dec_of(n: nat) -> Seq<char>
    decreases n,
{
    if n < 10 {
        seq![digit_char(n as int)]
    } else {
        dec_of(n / 10).push(digit_char((n % 10) as int))
    }
}

/// Two-digit zero-padded rendering.
pub open spec fn two_dig(n: int) -> Seq<char> {
    seq![digit_char(n / 10 % 10), digit_char(n % 10)]
}

/// Four-digit zero-padded rendering.
pub open spec fn four_dig(n: int) -> Seq<char> {
    seq![
        digit_char(n / 1000 % 10),
        digit_char(n / 100 % 10),
        digit_char(n / 10 % 10),
        digit_char(n % 10),
    ]
}

fn digit_char_exec(n: u64) -> (c: char)
    requires
        n < 10,
    ensures
        c == digit_char(n as int),
{
    if n == 0 { '0' }
    else if n == 1 { '1' }
    else if n == 2 { '2' }
    else if n == 3 { '3' }
    else if n == 4 { '4' }
    else if n == 5 { '5' }
    else if n == 6 { '6' }
    else if n == 7 { '7' }
    else if n == 8 { '8' }
    else { '9' }
}

/// Appends the decimal rendering of `n` to `out`.
pub fn push_u64(out: &mut String, n: u64)
    ensures
        final(out)@ == old(out)@ + dec_of(n as nat),
    decreases n,
{
    if n >= 10 {
        push_u64(out, n / 10);
    }
    let c = digit_char_exec(n % 10);
    push_char(out, c);
    proof {
        if n < 10 {
            assert(n % 10 == n);
            assert(old(out)@.push(c) =~= old(out)@ + dec_of(n as nat));
        } else {
            assert((old(out)@ + dec_of((n / 10) as nat)).push(c) =~= old(out)@ + dec_of(
                n as nat,
            ));
        }
    }
}

/// Appends the two-digit zero-padded rendering of `n` to `out`.
pub fn push_2dig(out: &mut String, n: u64)
    requires
        n < 100,
    ensures
        final(out)@ == old(out)@ + two_dig(n as int),
{
    let c1 = digit_char_exec(n / 10);
    let c2 = digit_char_exec(n % 10);
    push_char(out, c1);
    push_char(out, c2);
    proof {
        assert(n / 10 % 10 == n / 10);
        assert(old(out)@.push(c1).push(c2) =~= old(out)@ + two_dig(n as int));
    }
}

/// Appends the four-digit zero-padded rendering of `n` to `out`.
pub fn push_4dig(out: &mut String, n: u64)
    ensures
        final(out)@ == old(out)@ + four_dig(n as int),
{
    let c1 = digit_char_exec(n / 1000 % 10);
    let c2 = digit_char_exec(n / 100 % 10);
    let c3 = digit_char_exec(n / 10 % 10);
    let c4 = digit_char_exec(n % 10);
    push_char(out, c1);
    push_char(out, c2);
    push_char(out, c3);
    push_char(out, c4);
    proof {
        assert(old(out)@.push(c1).push(c2).push(c3).push(c4) =~= old(out)@ + four_dig(
            n as int,
        ));
    }
}

/// The value of a digit string never shrinks as digits are appended.
proof fn lemma_dec_val_take_le(s: Seq<char>, i: int, j: int)
    requires
        0 <= i <= j <= s.len(),
    ensures
        dec_val(s.take(i)) <= dec_val(s.take(j)),
    decreases j - i,
{
    if i < j {
        lemma_dec_val_take_le(s, i, j - 1);
        assert(s.take(j).drop_last() =~= s.take(j - 1));
        assert(dec_val(s.take(j)) == dec_val(s.take(j - 1)) * 10 + digit_val(s.take(j).last()));
    }
}

/// A nonempty, all-digit string parses to its decimal value when that value
/// fits in a `u64`; anything else is rejected.
pub open spec fn parse_u64_spec(s: Seq<char>) -> Option<u64> {
    if s.len() >= 1 && all_digits(s) && dec_val(s) < 0x1_0000_0000_0000_0000 {
        Some(dec_val(s) as u64)
    } else {
        None
    }
}

/// Parses a decimal digit string into a `u64`, rejecting empty input,
/// non-digit characters, and values that do not fit.
pub fn parse_u64_digits(s: &str) -> (r: Option<u64>)
    ensures
        r == parse_u64_spec(s@),
{
    let n = s.unicode_len();
    if n == 0 {
        return None;
    }
    let mut acc: u64 = 0;
    let mut i: usize = 0;
    while i < n
        invariant
            0 <= i <= n,
            n == s@.len(),
            all_digits(s@.take(i as int)),
            acc == dec_val(s@.take(i as int)),
        decreases n - i,
    {
        let c = s.get_char(i);
        let cv = c as u32;
        if !(48 <= cv && cv <= 57) {
            assert(!all_digits(s@));
            return None;
        }
        let d: u64 = (cv - 48) as u64;
        proof {
            assert(s@.take(i + 1).drop_last() =~= s@.take(i as int));
            assert(s@.take(i + 1).last() == s@[i as int]);
        }
        if acc > (0xffff_ffff_ffff_ffffu64 - d) / 10 {
            proof {
                let hi = 0xffff_ffff_ffff_ffffu64 as nat;
                assert(acc * 10 + d > hi) by (nonlinear_arith)
                    requires
                        acc > (hi - d) / 10,
                        d < 10,
                        hi == 0xffff_ffff_ffff_ffff,
                ;
                assert(dec_val(s@.take(i + 1)) == acc * 10 + d);
                lemma_dec_val_take_le(s@, i + 1, s@.len() as int);
                assert(s@.take(s@.len() as int) =~= s@);
            }
            return None;
        }
        proof {
            let hi = 0xffff_ffff_ffff_ffffu64 as nat;
            assert(acc * 10 + d <= hi) by (nonlinear_arith)
                requires
                    acc <= (hi - d) / 10,
                    d < 10,
                    hi == 0xffff_ffff_ffff_ffff,
            ;
        }
        acc = acc * 10 + d;
        i = i + 1;
    }
    proof {
        assert(s@.take(n as int) =~= s@);
    }
    Some(acc)
}

/// Character-by-character string equality, proved against the views.
pub fn str_eq(a: &str, b: &str) -> (r: bool)
    ensures
        r == (a@ == b@),
{
    let la = a.unicode_len();
    let lb = b.unicode_len();
    if la != lb {
        proof {
            assert(a@ != b@) by {
                if a@ == b@ {
                    assert(a@.len() == b@.len());
                }
            }
        }
        return false;
    }
    let mut i: usize = 0;
    while i < la
        invariant
            0 <= i <= la,
            la == a@.len(),
            la == b@.len(),
            forall|j: int| 0 <= j < i ==> a@[j] == b@[j],
        decreases la - i,
    {
        if a.get_char(i) != b.get_char(i) {
            return false;
        }
        i = i + 1;
    }
    proof {
        assert(a@ =~= b@);
    }
    true
}

/// Removes every backslash-quote pair, scanning left to right.
pub open spec fn strip_esc_quotes(s: Seq<char>) -> Seq<char>
    decreases s.len(),
{
    if s.len() == 0 {
        Seq::empty()
    } else if s.len() >= 2 && s[0] == '\\' && s[1] == '"' {
        strip_esc_quotes(s.skip(2))
    } else {
        seq![s[0]] + strip_esc_quotes(s.skip(1))
    }
}

/// Removes every occurrence of the two-character sequence backslash-quote,
/// as the upstream JSON text embeds escaped quotes.
pub fn remove_escaped_quotes(s: &str) -> (r: String)
    ensures
        r@ == strip_esc_quotes(s@),
{
    let n = s.unicode_len();
    let mut out = String::new();
    let mut i: usize = 0;
    proof {
        assert(s@.skip(0) =~= s@);
        assert(out@ + strip_esc_quotes(s@) =~= strip_esc_quotes(s@));
    }
    while i < n
        invariant
            0 <= i <= n,
            n == s@.len(),
            out@ + strip_esc_quotes(s@.skip(i as int)) == strip_esc_quotes(s@),
        decreases n - i,
    {
        let c = s.get_char(i);
        if c == '\\' && i + 1 < n && s.get_char(i + 1) == '"' {
            proof {
                assert(s@.skip(i as int).skip(2) =~= s@.skip(i + 2));
            }
            i = i + 2;
        } else {
            proof {
                assert(s@.skip(i as int).skip(1) =~= s@.skip(i + 1));
                assert((out@.push(c)) + strip_esc_quotes(s@.skip(i + 1)) =~= out@ + (seq![
                    s@[i as int],
                ] + strip_esc_quotes(s@.skip(i + 1))));
            }
            push_char(&mut out, c);
            i = i + 1;
        }
    }
    proof {
        assert(s@.skip(n as int) =~= Seq::<char>::empty());
        assert(out@ + Seq::<char>::empty() =~= out@);
    }
    out
}

/// Removes every double-quote character.
pub open spec fn remove_quotes(s: Seq<char>) -> Seq<char>
    decreases s.len(),
{
    if s.len() == 0 {
        Seq::empty()
    } else if s[0] == '"' {
        remove_quotes(s.skip(1))
    } else {
        seq![s[0]] + remove_quotes(s.skip(1))
    }
}

/// Removes every double-quote character from the text.
pub fn remove_quote_chars(s: &str) -> (r: String)
    ensures
        r@ == remove_quotes(s@),
{
    let n = s.unicode_len();
    let mut out = String::new();
    let mut i: usize = 0;
    proof {
        assert(s@.skip(0) =~= s@);
        assert(out@ + remove_quotes(s@) =~= remove_quotes(s@));
    }
    while i < n
        invariant
            0 <= i <= n,
            n == s@.len(),
            out@ + remove_quotes(s@.skip(i as int)) == remove_quotes(s@),
        decreases n - i,
    {
        let c = s.get_char(i);
        proof {
            assert(s@.skip(i as int).skip(1) =~= s@.skip(i + 1));
            if c != '"' {
                assert((out@.push(c)) + remove_quotes(s@.skip(i + 1)) =~= out@ + (seq![
                    s@[i as int],
                ] + remove_quotes(s@.skip(i + 1))));
            }
        }
        if c != '"' {
            push_char(&mut out, c);
        }
        i = i + 1;
    }
    proof {
        assert(s@.skip(n as int) =~= Seq::<char>::empty());
        assert(out@ + Seq::<char>::empty() =~= out@);
    }
    out
}

/// Drops leading double-quote characters.
pub open spec fn trim_quotes_front(s: Seq<char>) -> Seq<char>
    decreases s.len(),
{
    if s.len() > 0 && s[0] == '"' {
        trim_quotes_front(s.skip(1))
    } else {
        s
    }
}

/// Drops trailing double-quote characters.
pub open spec fn trim_quotes_back(s: Seq<char>) -> Seq<char>
    decreases s.len(),
{
    if s.len() > 0 && s.last() == '"' {
        trim_quotes_back(s.drop_last())
    } else {
        s
    }
}

/// Drops double-quote characters from both ends, as `trim_matches('"')` does.
pub open spec fn trim_quotes(s: Seq<char>) -> Seq<char> {
    trim_quotes_back(trim_quotes_front(s))
}

proof fn lemma_trim_front_skip(s: Seq<char>, k: int)
    requires
        0 <= k <= s.len(),
        forall|j: int| 0 <= j < k ==> s[j] == '"',
        k == s.len() || s[k] != '"',
    ensures
        trim_quotes_front(s) == s.skip(k),
    decreases k,
{
    if k == 0 {
        assert(s.skip(0) =~= s);
    } else {
        assert(s[0] == '"');
        lemma_trim_front_skip(s.skip(1), k - 1);
        assert(s.skip(1).skip(k - 1) =~= s.skip(k));
    }
}

proof fn lemma_trim_back_take(s: Seq<char>, k: int)
    requires
        0 <= k <= s.len(),
        forall|j: int| k <= j < s.len() ==> s[j] == '"',
        k == 0 || s[k - 1] != '"',
    ensures
        trim_quotes_back(s) == s.take(k),
    decreases s.len() - k,
{
    if k == s.len() {
        assert(s.take(k) =~= s);
    } else {
        assert(s.last() == '"');
        lemma_trim_back_take(s.drop_last(), k);
        assert(s.drop_last().take(k) =~= s.take(k));
    }
}

/// Removes double-quote characters from both ends of the text.
pub fn trim_quote_ends(s: &str) -> (r: String)
    ensures
        r@ == trim_quotes(s@),
{
    let n = s.unicode_len();
    let mut start: usize = 0;
    while start < n && s.get_char(start) == '"'
        invariant
            0 <= start <= n,
            n == s@.len(),
            forall|j: int| 0 <= j < start ==> s@[j] == '"',
        decreases n - start,
    {
        start = start + 1;
    }
    proof {
        lemma_trim_front_skip(s@, start as int);
    }
    let mut end: usize = n;
    while end > start && s.get_char(end - 1) == '"'
        invariant
            start <= end <= n,
            n == s@.len(),
            forall|j: int| end <= j < n ==> s@[j] == '"',
        decreases end,
    {
        end = end - 1;
    }
    proof {
        let t = s@.skip(start as int);
        assert(forall|j: int| end - start <= j < t.len() ==> t[j] == s@[j + start] && t[j] == '"');
        assert(end == start || t[end - start - 1] == s@[end - 1]);
        lemma_trim_back_take(t, end - start);
    }
    let mut out = String::new();
    let mut i: usize = start;
    while i < end
        invariant
            start <= i <= end <= n,
            n == s@.len(),
            out@ =~= s@.subrange(start as int, i as int),
        decreases end - i,
    {
        let c = s.get_char(i);
        push_char(&mut out, c);
        proof {
            assert(s@.subrange(start as int, i as int).push(s@[i as int]) =~= s@.subrange(
                start as int,
                i + 1,
            ));
        }
        i = i + 1;
    }
    proof {
        assert(s@.skip(start as int).take(end - start as int) =~= s@.subrange(
            start as int,
            end as int,
        ));
    }
    out
}

} // verus!
