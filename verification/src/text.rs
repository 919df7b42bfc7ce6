//! Character and decimal-string utilities shared by the filter and the
//! display formatter: ASCII normalization and fixed-point decimal rendering.
use vstd::prelude::*;
use vstd::string::StringExecFns;

verus! {

/// Appends one character to a string.
///
/// Relies on String::push: appends the given char to the end of this String.
#[verifier::external_body]
pub(crate) fn push_char(s: &mut String, c: char)
    ensures
        final(s)@ == old(s)@.push(c),
{
    s.push(c)
}

/// The characters stripped from the ends of a type name during
/// normalization: ASCII whitespace.
pub open spec fn is_space_char(c: char) -> bool {
    c == ' ' || c == '\t' || c == '\n' || c == '\r'
}

/// Upper-case mapping for one character: ASCII letters are folded,
/// everything else is left unchanged.
pub open spec fn upper_char(c: char) -> char {
    if 'a' <= c && c <= 'z' {
        ((c as u8) - 32) as char
    } else {
        c
    }
}

/// Upper-case mapping over a whole character sequence.
pub open spec fn upper_chars(s: Seq<char>) -> Seq<char> {
    s.map_values(|c: char| upper_char(c))
}

/// A sequence with leading ASCII whitespace removed.
pub open spec fn trim_start_chars(s: Seq<char>) -> Seq<char>
    decreases s.len(),
{
    if s.len() > 0 && is_space_char(s[0]) {
        trim_start_chars(s.drop_first())
    } else {
        s
    }
}

/// A sequence with trailing ASCII whitespace removed.
pub open spec fn trim_end_chars(s: Seq<char>) -> Seq<char>
    decreases s.len(),
{
    if s.len() > 0 && is_space_char(s[s.len() - 1]) {
        trim_end_chars(s.drop_last())
    } else {
        s
    }
}

/// A sequence with ASCII whitespace removed from both ends.
pub open spec fn trimmed_chars(s: Seq<char>) -> Seq<char> {
    trim_end_chars(trim_start_chars(s))
}

/// Canonical form of a message-type name: whitespace trimmed from both
/// ends, then ASCII letters upper-cased.
pub open spec fn normalized_name(s: Seq<char>) -> Seq<char> {
    upper_chars(trimmed_chars(s))
}

proof fn lemma_trim_start_subrange(s: Seq<char>, i: int)
    requires
        0 <= i <= s.len(),
        forall|k: int| 0 <= k < i ==> is_space_char(s[k]),
        i < s.len() ==> !is_space_char(s[i]),
    ensures
        trim_start_chars(s) =~= s.subrange(i, s.len() as int),
    decreases i,
{
    if i == 0 {
        if s.len() > 0 && is_space_char(s[0]) {
            assert(false);
        }
        assert(trim_start_chars(s) =~= s.subrange(0, s.len() as int));
    } else {
        let t = s.drop_first();
        assert(forall|k: int| 0 <= k < i - 1 ==> is_space_char(#[trigger] t[k]));
        lemma_trim_start_subrange(t, i - 1);
        assert(t.subrange(i - 1, t.len() as int) =~= s.subrange(i, s.len() as int));
    }
}

proof fn lemma_trim_end_subrange(s: Seq<char>, j: int)
    requires
        0 <= j <= s.len(),
        forall|k: int| j <= k < s.len() ==> is_space_char(s[k]),
        j > 0 ==> !is_space_char(s[j - 1]),
    ensures
        trim_end_chars(s) =~= s.subrange(0, j),
    decreases s.len() - j,
{
    if j == s.len() {
        if s.len() > 0 && is_space_char(s[s.len() - 1]) {
            assert(false);
        }
        assert(trim_end_chars(s) =~= s.subrange(0, j));
    } else {
        let t = s.drop_last();
        lemma_trim_end_subrange(t, j);
        assert(t.subrange(0, j) =~= s.subrange(0, j));
    }
}

/// Builds the canonical (trimmed, upper-cased) form of a name.
pub fn normalize_name(s: &str) -> (r: String)
    ensures
        r@ == normalized_name(s@),
{
    let len = s.unicode_len();
    let mut start: usize = 0;
    while start < len && is_space(s.get_char(start))
        invariant
            0 <= start <= len,
            len == s@.len(),
            forall|k: int| 0 <= k < start ==> is_space_char(s@[k]),
        decreases len - start,
    {
        start = start + 1;
    }
    let mut end: usize = len;
    while end > start && is_space(s.get_char(end - 1))
        invariant
            start <= end <= len,
            len == s@.len(),
            forall|k: int| 0 <= k < start ==> is_space_char(s@[k]),
            start < len ==> !is_space_char(s@[start as int]),
            forall|k: int| end <= k < len ==> is_space_char(s@[k]),
        decreases end,
    {
        end = end - 1;
    }
    proof {
        lemma_trim_start_subrange(s@, start as int);
        let t = s@.subrange(start as int, s@.len() as int);
        if end > start {
            assert(!is_space_char(t[end - start - 1]));
        }
        assert(forall|k: int| end - start <= k < t.len() ==> is_space_char(#[trigger] t[k]));
        lemma_trim_end_subrange(t, end - start);
        assert(trimmed_chars(s@) =~= s@.subrange(start as int, end as int));
    }
    let core = s.substring_char(start, end);
    upper_ascii(core)
}

/// Whether a character counts as whitespace for name normalization.
fn is_space(c: char) -> (r: bool)
    ensures
        r == is_space_char(c),
{
    c == ' ' || c == '\t' || c == '\n' || c == '\r'
}

/// Upper-cases the ASCII letters of a string, leaving the rest unchanged.
fn upper_ascii(s: &str) -> (r: String)
    ensures
        r@ == upper_chars(s@),
{
    let len = s.unicode_len();
    let mut r = String::new();
    let mut i: usize = 0;
    while i < len
        invariant
            0 <= i <= len,
            len == s@.len(),
            r@ == upper_chars(s@.subrange(0, i as int)),
        decreases len - i,
    {
        let c = s.get_char(i);
        let up = if 'a' <= c && c <= 'z' {
            ((c as u8) - 32) as char
        } else {
            c
        };
        assert(up == upper_char(c));
        push_char(&mut r, up);
        proof {
            assert(s@.subrange(0, i + 1).drop_last() =~= s@.subrange(0, i as int));
            assert(upper_chars(s@.subrange(0, i + 1)) =~= upper_chars(s@.subrange(0, i as int)).push(
                upper_char(s@[i as int]),
            ));
        }
        i = i + 1;
    }
    proof {
        assert(s@.subrange(0, len as int) =~= s@);
    }
    r
}

/// The decimal digit character for one digit value.
pub open spec fn digit_char(d: int) -> char
    recommends
        0 <= d <= 9,
{
    ((48 + d) as u8) as char
}

/// The decimal digit string of a natural number, most significant first.
pub open spec fn dec_digits(n: nat) -> Seq<char>
    decreases n,
{
    if n < 10 {
        seq![digit_char(n as int)]
    } else {
        dec_digits(n / 10).push(digit_char((n % 10) as int))
    }
}

/// The decimal string of an integer, with a leading minus sign when negative.
pub open spec fn int_str(v: int) -> Seq<char> {
    if v < 0 {
        seq!['-'] + dec_digits((-v) as nat)
    } else {
        dec_digits(v as nat)
    }
}

/// A sequence of `n` copies of one character.
pub open spec fn repeat_char(c: char, n: nat) -> Seq<char>
    decreases n,
{
    if n == 0 {
        Seq::empty()
    } else {
        seq![c] + repeat_char(c, (n - 1) as nat)
    }
}

/// `s` left-padded with `c` up to width `w` (unchanged when already wide enough).
pub open spec fn left_pad(s: Seq<char>, c: char, w: nat) -> Seq<char> {
    if s.len() >= w {
        s
    } else {
        repeat_char(c, (w - s.len()) as nat) + s
    }
}

/// Ten to the power `n`.
pub open spec fn pow10(n: nat) -> nat
    decreases n,
{
    if n == 0 {
        1
    } else {
        10 * pow10((n - 1) as nat)
    }
}

/// A scaled integer rendered with a fixed number of decimals: `v` counts
/// units of `10^decimals`-ths, so `fixed_str(1234, 2)` is `12.34`.
pub open spec fn fixed_str(v: int, decimals: nat) -> Seq<char> {
    let a = if v < 0 { -v } else { v };
    let sign: Seq<char> = if v < 0 { seq!['-'] } else { Seq::empty() };
    sign + dec_digits((a / pow10(decimals) as int) as nat) + seq!['.'] + left_pad(
        dec_digits((a % pow10(decimals) as int) as nat),
        '0',
        decimals,
    )
}

/// The decimal digit string of a machine natural number.
pub fn u64_digits(n: u64) -> (r: String)
    ensures
        r@ == dec_digits(n as nat),
    decreases n,
{
    if n < 10 {
        let mut s = String::new();
        push_char(&mut s, digit(n as u8));
        proof {
            assert(s@ =~= dec_digits(n as nat));
        }
        s
    } else {
        let mut s = u64_digits(n / 10);
        push_char(&mut s, digit((n % 10) as u8));
        s
    }
}

/// The decimal digit character for one digit value.
fn digit(d: u8) -> (c: char)
    requires
        d <= 9,
    ensures
        c == digit_char(d as int),
{
    (48 + d) as char
}

/// The decimal string of a machine integer, with a minus sign when negative.
pub fn i64_string(v: i64) -> (r: String)
    requires
        v != i64::MIN,
    ensures
        r@ == int_str(v as int),
{
    if v < 0 {
        let mut s = String::from_str("-");
        let ds = u64_digits((-v) as u64);
        s.append(ds.as_str());
        proof {
            reveal_strlit("-");
            assert(s@ =~= int_str(v as int));
        }
        s
    } else {
        u64_digits(v as u64)
    }
}

/// `s` left-padded with copies of `c` up to width `w`.
pub fn pad_left(s: String, c: char, w: usize) -> (r: String)
    ensures
        r@ == left_pad(s@, c, w as nat),
{
    let n = s.as_str().unicode_len();
    if n >= w {
        s
    } else {
        let mut pad = String::new();
        let mut i: usize = 0;
        while i < w - n
            invariant
                0 <= i <= w - n,
                n == s@.len(),
                n < w,
                pad@ == repeat_char(c, i as nat),
            decreases w - n - i,
        {
            push_char(&mut pad, c);
            proof {
                lemma_repeat_char_push(c, i as nat);
            }
            i = i + 1;
        }
        pad.concat(s.as_str())
    }
}

proof fn lemma_repeat_char_push(c: char, n: nat)
    ensures
        repeat_char(c, n).push(c) =~= repeat_char(c, n + 1),
    decreases n,
{
    if n > 0 {
        lemma_repeat_char_push(c, (n - 1) as nat);
        assert(repeat_char(c, n + 1) =~= seq![c] + repeat_char(c, n));
        assert((seq![c] + repeat_char(c, (n - 1) as nat)).push(c) =~= seq![c] + repeat_char(
            c,
            (n - 1) as nat,
        ).push(c));
    } else {
        assert(repeat_char(c, 0) =~= Seq::<char>::empty());
        assert(repeat_char(c, 1) =~= seq![c] + repeat_char(c, 0));
        assert(repeat_char(c, 0).push(c) =~= seq![c]);
    }
}

/// Ten to the power `n`, as a machine integer.
fn pow10_u64(n: usize) -> (r: u64)
    requires
        n <= 9,
    ensures
        r == pow10(n as nat),
        r >= 1,
    decreases n,
{
    if n == 0 {
        1
    } else {
        proof {
            lemma_pow10_bound(n as nat);
        }
        10 * pow10_u64(n - 1)
    }
}

proof fn lemma_pow10_bound(n: nat)
    requires
        n <= 9,
    ensures
        pow10(n) >= 1,
        n <= 1 ==> pow10(n) <= 10,
        n <= 2 ==> pow10(n) <= 100,
        n <= 3 ==> pow10(n) <= 1000,
        n <= 4 ==> pow10(n) <= 10000,
        n <= 5 ==> pow10(n) <= 100000,
        n <= 6 ==> pow10(n) <= 1000000,
        n <= 7 ==> pow10(n) <= 10000000,
        n <= 8 ==> pow10(n) <= 100000000,
        pow10(n) <= 1000000000,
    decreases n,
{
    if n > 0 {
        lemma_pow10_bound((n - 1) as nat);
    }
}

/// Renders a scaled integer with a fixed number of decimals:
/// `fixed_string(1234, 2)` is `"12.34"`.
pub fn fixed_string(v: i64, decimals: usize) -> (r: String)
    requires
        v != i64::MIN,
        decimals <= 9,
    ensures
        r@ == fixed_str(v as int, decimals as nat),
{
    let p = pow10_u64(decimals);
    let a: u64 = if v < 0 {
        (-v) as u64
    } else {
        v as u64
    };
    let mut s = if v < 0 {
        String::from_str("-")
    } else {
        String::new()
    };
    proof {
        reveal_strlit("-");
    }
    let whole = u64_digits(a / p);
    let frac = pad_left(u64_digits(a % p), '0', decimals);
    s.append(whole.as_str());
    push_char(&mut s, '.');
    s.append(frac.as_str());
    proof {
        assert(s@ =~= fixed_str(v as int, decimals as nat));
    }
    s
}

} // verus!
