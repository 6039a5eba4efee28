use vstd::prelude::*;
use vstd::string::StrSliceExecFns;

verus! {

/// The characters with Unicode's White_Space property.
pub open spec fn is_white_space(c: char) -> bool {
    let u = c as u32;
    (0x9 <= u <= 0xd) || u == 0x20 || u == 0x85 || u == 0xa0 || u == 0x1680 || (0x2000 <= u
        <= 0x200a) || u == 0x2028 || u == 0x2029 || u == 0x202f || u == 0x205f || u == 0x3000
}

/// `s` without its leading white space.
pub open spec fn trim_front(s: Seq<char>) -> Seq<char>
    decreases s.len(),
{
    if s.len() > 0 && is_white_space(s[0]) {
        trim_front(s.drop_first())
    } else {
        s
    }
}

/// `s` without its trailing white space.
pub open spec fn trim_back(s: Seq<char>) -> Seq<char>
    decreases s.len(),
{
    if s.len() > 0 && is_white_space(s.last()) {
        trim_back(s.drop_last())
    } else {
        s
    }
}

/// `s` without white space at either end.
pub open spec fn trimmed(s: Seq<char>) -> Seq<char> {
    trim_back(trim_front(s))
}

pub open spec fn is_digit(c: char) -> bool {
    '0' <= c <= '9'
}

pub open spec fn all_digits(s: Seq<char>) -> bool {
    forall|i: int| 0 <= i < s.len() ==> is_digit(#[trigger] s[i])
}

/// The number that a string of decimal digits writes.
pub open spec fn digits_value(s: Seq<char>) -> nat
    decreases s.len(),
{
    if s.len() == 0 {
        0
    } else {
        digits_value(s.drop_last()) * 10 + (s.last() as nat - '0' as nat) as nat
    }
}

/// The digits of a decimal numeral, after an optional leading `+`.
pub open spec fn unsigned_digits(s: Seq<char>) -> Seq<char> {
    if s.len() > 0 && s[0] == '+' {
        s.drop_first()
    } else {
        s
    }
}

/// The `u32` that `s` writes in base 10 (an optional `+`, then one or more
/// digits), or `None` where `s` is no such numeral or its value exceeds `u32`.
pub open spec fn decimal_u32(s: Seq<char>) -> Option<u32> {
    let d = unsigned_digits(s);
    if d.len() > 0 && all_digits(d) && digits_value(d) <= u32::MAX {
        Some(digits_value(d) as u32)
    } else {
        None
    }
}

/// What a typed guess reads as: the number written between surrounding white
/// space, if any.
pub open spec fn guess_value(s: Seq<char>) -> Option<u32> {
    decimal_u32(trimmed(s))
}

/// Relies on `str::trim`: removes leading and trailing characters with the
/// White_Space property.
#[verifier::external_body]
fn trim_white_space(s: &str) -> (r: &str)
    ensures
        r@ == trimmed(s@),
{
    s.trim()
}

proof fn lemma_digits_value_grows(s: Seq<char>, k: int)
    requires
        0 <= k <= s.len(),
        all_digits(s),
    ensures
        digits_value(s.subrange(0, k)) <= digits_value(s),
    decreases s.len() - k,
{
    if k < s.len() {
        lemma_digits_value_grows(s, k + 1);
        let p = s.subrange(0, k + 1);
        assert(p.drop_last() =~= s.subrange(0, k));
        assert(is_digit(s[k]));
    } else {
        assert(s.subrange(0, k) =~= s);
    }
}

/// Reads `s` as a base-10 `u32`: an optional `+` followed by one or more
/// digits; anything else, or a value above `u32::MAX`, gives `None`.
pub fn parse_decimal_u32(s: &str) -> (r: Option<u32>)
    ensures
        r == decimal_u32(s@),
{
    let n = s.unicode_len();
    let mut start: usize = 0;
    if n > 0 && s.get_char(0) == '+' {
        start = 1;
    }
    let ghost d = unsigned_digits(s@);
    assert(d =~= s@.subrange(start as int, n as int));
    if start == n {
        return None;
    }
    let mut value: u64 = 0;
    let mut i: usize = start;
    while i < n
        invariant
            start <= i <= n,
            n == s@.len(),
            d == unsigned_digits(s@),
            d == s@.subrange(start as int, n as int),
            all_digits(d.subrange(0, i - start)),
            value == digits_value(d.subrange(0, i - start)),
            value <= u32::MAX,
        decreases n - i,
    {
        let c = s.get_char(i);
        if !('0' <= c && c <= '9') {
            assert(!is_digit(d[i - start]));
            return None;
        }
        let ghost prev = d.subrange(0, i - start);
        let ghost next = d.subrange(0, i - start + 1);
        assert(next.drop_last() =~= prev);
        assert(next.last() == c);
        value = value * 10 + (c as u64 - '0' as u64);
        assert forall|j: int| 0 <= j < next.len() implies is_digit(#[trigger] next[j]) by {
            if j < prev.len() {
                assert(next[j] == prev[j]);
            }
        }
        if value > u32::MAX as u64 {
            proof {
                if all_digits(d) {
                    lemma_digits_value_grows(d, i - start + 1);
                }
            }
            return None;
        }
        i = i + 1;
    }
    assert(d.subrange(0, n - start) =~= d);
    Some(value as u32)
}

/// Reads a typed guess: the base-10 number between any surrounding white
/// space, or `None` where there is none or it does not fit a `u32`.
pub fn read_guess(input: &str) -> (r: Option<u32>)
    ensures
        r == guess_value(input@),
{
    let t = trim_white_space(input);
    parse_decimal_u32(t)
}

proof fn lemma_trim_front_offset(s: Seq<char>) -> (a: int)
    ensures
        0 <= a <= s.len(),
        trim_front(s) == s.subrange(a, s.len() as int),
        forall|k: int| 0 <= k < a ==> is_white_space(#[trigger] s[k]),
    decreases s.len(),
{
    if s.len() > 0 && is_white_space(s[0]) {
        let rest = s.drop_first();
        let a0 = lemma_trim_front_offset(rest);
        assert(rest.subrange(a0, rest.len() as int) =~= s.subrange(a0 + 1, s.len() as int));
        assert forall|k: int| 0 <= k < a0 + 1 implies is_white_space(#[trigger] s[k]) by {
            if k > 0 {
                assert(s[k] == rest[k - 1]);
            }
        }
        a0 + 1
    } else {
        assert(s.subrange(0, s.len() as int) =~= s);
        0
    }
}

proof fn lemma_trim_back_end(s: Seq<char>) -> (b: int)
    ensures
        0 <= b <= s.len(),
        trim_back(s) == s.subrange(0, b),
        forall|k: int| b <= k < s.len() ==> is_white_space(#[trigger] s[k]),
    decreases s.len(),
{
    if s.len() > 0 && is_white_space(s.last()) {
        let rest = s.drop_last();
        let b0 = lemma_trim_back_end(rest);
        assert(rest.subrange(0, b0) =~= s.subrange(0, b0));
        assert forall|k: int| b0 <= k < s.len() implies is_white_space(#[trigger] s[k]) by {
            if k < s.len() - 1 {
                assert(s[k] == rest[k]);
            }
        }
        b0
    } else {
        assert(s.subrange(0, s.len() as int) =~= s);
        s.len() as int
    }
}

/// The trimmed text is a stretch `s[a..b]` of `s`, and everything outside it is
/// white space.
proof fn lemma_trimmed_bounds(s: Seq<char>) -> (ab: (int, int))
    ensures
        0 <= ab.0 <= ab.1 <= s.len(),
        trimmed(s) == s.subrange(ab.0, ab.1),
        forall|k: int|
            0 <= k < s.len() && !(ab.0 <= k < ab.1) ==> is_white_space(#[trigger] s[k]),
{
    let a = lemma_trim_front_offset(s);
    let s1 = s.subrange(a, s.len() as int);
    let b = lemma_trim_back_end(s1);
    assert(s1.subrange(0, b) =~= s.subrange(a, a + b));
    assert forall|k: int| 0 <= k < s.len() && !(a <= k < a + b) implies is_white_space(
        #[trigger] s[k],
    ) by {
        if k >= a + b {
            assert(s[k] == s1[k - a]);
        }
    }
    (a, a + b)
}

/// Text with no digit at all, or with a character that is neither a digit,
/// `+` nor white space (a letter, `-`, `.`), is not a guess.
pub proof fn lemma_non_numeric_text(s: Seq<char>)
    requires
        (forall|i: int| 0 <= i < s.len() ==> !is_digit(#[trigger] s[i])) || (exists|k: int|
            0 <= k < s.len() && !is_digit(#[trigger] s[k]) && s[k] != '+' && !is_white_space(
                s[k],
            )),
    ensures
        guess_value(s) is None,
{
    let (a, b) = lemma_trimmed_bounds(s);
    let t = trimmed(s);
    let d = unsigned_digits(t);
    let skip: int = if t.len() > 0 && t[0] == '+' { 1 } else { 0 };
    assert(d =~= t.subrange(skip, t.len() as int));
    if forall|i: int| 0 <= i < s.len() ==> !is_digit(#[trigger] s[i]) {
        if d.len() > 0 {
            assert(d[0] == s[a + skip]);
        }
    } else {
        let k = choose|k: int|
            0 <= k < s.len() && !is_digit(#[trigger] s[k]) && s[k] != '+' && !is_white_space(
                s[k],
            );
        assert(a <= k < b);
        assert(t[k - a] == s[k]);
        assert(k - a >= skip);
        assert(d[k - a - skip] == s[k]);
    }
}

} // verus!
