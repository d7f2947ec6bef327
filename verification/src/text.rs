//! Text helpers of the asset naming scheme: zero-padded decimal numbers,
//! unsigned decimal parsing as `str::parse::<u32>` does it, and string
//! comparison.
use vstd::prelude::*;
use vstd::string::StringExecFns;
use vstd::string::StrSliceExecFns;

verus! {

/// The character of decimal digit `d`.
pub open spec fn digit_char(d: int) -> char {
    (48 + d) as char
}

pub open spec fn is_digit(c: char) -> bool {
    '0' <= c && c <= '9'
}

/// The value of a decimal digit character.
pub open spec fn digit_value(c: char) -> int {
    c as int - 48
}

/// The decimal representation of `n`, without leading zeros.
pub open spec fn decimal_digits(n: nat) -> Seq<char>
    decreases n,
{
    if n < 10 {
        seq![digit_char(n as int)]
    } else {
        decimal_digits(n / 10).push(digit_char((n % 10) as int))
    }
}

/// The decimal representation of `n`, left-padded with `'0'` to `width`
/// characters (what `format!("{:0width$}", n)` writes).
pub open spec fn zero_padded(n: nat, width: nat) -> Seq<char> {
    let d = decimal_digits(n);
    if d.len() < width {
        Seq::new((width - d.len()) as nat, |_i: int| '0') + d
    } else {
        d
    }
}

/// The value of a sequence of decimal digits.
pub open spec fn digits_value(s: Seq<char>) -> int
    decreases s.len(),
{
    if s.len() == 0 {
        0
    } else {
        digits_value(s.drop_last()) * 10 + digit_value(s.last())
    }
}

pub open spec fn all_digits(s: Seq<char>) -> bool {
    forall|i: int| 0 <= i < s.len() ==> is_digit(#[trigger] s[i])
}

/// What `str::parse` gives for an unsigned integer type whose largest
/// value is `max`: an optional `'+'`, then one or more decimal digits whose
/// value is at most `max`.
pub open spec fn parse_unsigned_spec(s: Seq<char>, max: int) -> Option<int> {
    let body = if s.len() > 0 && s[0] == '+' {
        s.drop_first()
    } else {
        s
    };
    if body.len() > 0 && all_digits(body) && digits_value(body) <= max {
        Some(digits_value(body))
    } else {
        None
    }
}

/// What `str::parse::<u32>` gives.
pub open spec fn parse_u32_spec(s: Seq<char>) -> Option<u32> {
    match parse_unsigned_spec(s, u32::MAX as int) {
        Some(v) => Some(v as u32),
        None => None,
    }
}

/// A name for what `char::is_alphabetic` answers (the Unicode Alphabetic
/// property of the character).
pub uninterp spec fn char_is_alphabetic(c: char) -> bool;

/// Calls `char::is_alphabetic`; its result is named `char_is_alphabetic`.
#[verifier::external_body]
pub(crate) fn is_alphabetic(c: char) -> (b: bool)
    ensures
        b == char_is_alphabetic(c),
{
    c.is_alphabetic()
}

/// The number of leading characters of `s` that are alphabetic (what
/// `trim_start_matches(char::is_alphabetic)` removes).
pub open spec fn alpha_prefix_len(s: Seq<char>) -> nat
    decreases s.len(),
{
    if s.len() > 0 && char_is_alphabetic(s[0]) {
        1 + alpha_prefix_len(s.drop_first())
    } else {
        0
    }
}

proof fn lemma_digit_char(d: int)
    requires
        0 <= d < 10,
    ensures
        is_digit(digit_char(d)),
        digit_value(digit_char(d)) == d,
{
}

proof fn lemma_digits_len_pos(n: nat)
    ensures
        decimal_digits(n).len() >= 1,
    decreases n,
{
    if n >= 10 {
        lemma_digits_len_pos(n / 10);
    }
}

/// The digits of a number are decimal digits and have its value.
pub proof fn lemma_decimal_digits_value(n: nat)
    ensures
        all_digits(decimal_digits(n)),
        digits_value(decimal_digits(n)) == n,
        decimal_digits(n).len() >= 1,
    decreases n,
{
    lemma_digits_len_pos(n);
    lemma_digit_char((n % 10) as int);
    if n >= 10 {
        lemma_decimal_digits_value(n / 10);
        let d = decimal_digits(n);
        assert(d.drop_last() =~= decimal_digits(n / 10));
        assert(d.last() == digit_char((n % 10) as int));
        assert(digits_value(d) == digits_value(d.drop_last()) * 10 + digit_value(d.last()));
        assert(n == (n / 10) * 10 + n % 10);
        assert forall|i: int| 0 <= i < d.len() implies is_digit(#[trigger] d[i]) by {
            if i < d.len() - 1 {
                assert(d[i] == decimal_digits(n / 10)[i]);
            }
        }
    } else {
        let d = decimal_digits(n);
        assert(d.drop_last() =~= Seq::<char>::empty());
        assert(digits_value(d.drop_last()) == 0);
        assert(d.last() == digit_char(n as int));
    }
}

/// Leading zeros do not change the value of a digit sequence.
pub proof fn lemma_leading_zeros_value(k: nat, d: Seq<char>)
    ensures
        digits_value(Seq::new(k, |_i: int| '0') + d) == digits_value(d),
    decreases d.len(),
{
    let z = Seq::new(k, |_i: int| '0');
    if d.len() == 0 {
        assert(z + d =~= z);
        lemma_zeros_value(k);
    } else {
        lemma_leading_zeros_value(k, d.drop_last());
        assert((z + d).drop_last() =~= z + d.drop_last());
    }
}

proof fn lemma_zeros_value(k: nat)
    ensures
        digits_value(Seq::new(k, |_i: int| '0')) == 0,
    decreases k,
{
    if k > 0 {
        lemma_zeros_value((k - 1) as nat);
        assert(Seq::new(k, |_i: int| '0').drop_last() =~= Seq::new((k - 1) as nat, |_i: int| '0'));
    }
}

/// A zero-padded number reads back as the number: parsing what
/// `zero_padded` writes gives `n` again, for every `u32` and width.
pub proof fn lemma_zero_padded_parses(n: u32, width: nat)
    ensures
        parse_u32_spec(zero_padded(n as nat, width)) == Some(n),
{
    lemma_decimal_digits_value(n as nat);
    let d = decimal_digits(n as nat);
    let s = zero_padded(n as nat, width);
    if d.len() < width {
        let k = (width - d.len()) as nat;
        lemma_leading_zeros_value(k, d);
        assert(s[0] == '0');
        assert forall|i: int| 0 <= i < s.len() implies is_digit(#[trigger] s[i]) by {
            if i >= k {
                assert(s[i] == d[i - k]);
            }
        }
    } else {
        assert(s[0] == d[0]);
        assert(is_digit(d[0]));
    }
}

/// A number below `10^width` padded to `width` characters takes exactly
/// `width` decimal digits, whose value is the number.
pub proof fn lemma_zero_padded_shape(n: nat, width: nat)
    requires
        width >= 1,
        n < pow10(width),
    ensures
        zero_padded(n, width).len() == width,
        all_digits(zero_padded(n, width)),
        digits_value(zero_padded(n, width)) == n,
{
    lemma_decimal_digits_value(n);
    lemma_digit_count_log(n, width);
    let d = decimal_digits(n);
    let s = zero_padded(n, width);
    if d.len() < width {
        let k = (width - d.len()) as nat;
        lemma_leading_zeros_value(k, d);
        assert forall|i: int| 0 <= i < s.len() implies is_digit(#[trigger] s[i]) by {
            if i >= k {
                assert(s[i] == d[i - k]);
            }
        }
    }
}

/// The string of one decimal digit.
fn digit_str(d: u64) -> (s: &'static str)
    requires
        d < 10,
    ensures
        s@ == seq![digit_char(d as int)],
{
    match d {
        0 => {
            proof {
                reveal_strlit("0");
            }
            "0"
        },
        1 => {
            proof {
                reveal_strlit("1");
            }
            "1"
        },
        2 => {
            proof {
                reveal_strlit("2");
            }
            "2"
        },
        3 => {
            proof {
                reveal_strlit("3");
            }
            "3"
        },
        4 => {
            proof {
                reveal_strlit("4");
            }
            "4"
        },
        5 => {
            proof {
                reveal_strlit("5");
            }
            "5"
        },
        6 => {
            proof {
                reveal_strlit("6");
            }
            "6"
        },
        7 => {
            proof {
                reveal_strlit("7");
            }
            "7"
        },
        8 => {
            proof {
                reveal_strlit("8");
            }
            "8"
        },
        _ => {
            proof {
                reveal_strlit("9");
            }
            "9"
        },
    }
}

fn append_digits(out: &mut String, n: u64)
    ensures
        final(out)@ == old(out)@ + decimal_digits(n as nat),
    decreases n,
{
    if n >= 10 {
        append_digits(out, n / 10);
    }
    out.append(digit_str(n % 10));
}

fn digit_count(n: u64) -> (c: usize)
    ensures
        c == decimal_digits(n as nat).len(),
    decreases n,
{
    if n < 10 {
        1
    } else {
        let c = digit_count(n / 10);
        assert(c < 30) by {
            lemma_digit_count_bound(n as nat);
        }
        c + 1
    }
}

proof fn lemma_digit_count_bound(n: nat)
    requires
        n <= u64::MAX,
    ensures
        decimal_digits(n).len() <= 20,
    decreases n,
{
    assert(pow10(20) == 100000000000000000000) by {
        reveal_with_fuel(pow10, 21);
    }
    lemma_digit_count_log(n, 20);
}

proof fn lemma_digit_count_log(n: nat, k: nat)
    requires
        n < pow10(k),
        k >= 1,
    ensures
        decimal_digits(n).len() <= k,
    decreases n,
{
    if n >= 10 {
        assert(k >= 2) by {
            if k == 1 {
                assert(pow10(1) == 10) by {
                    reveal_with_fuel(pow10, 2);
                }
            }
        }
        assert(n / 10 < pow10((k - 1) as nat)) by {
            assert(pow10(k) == 10 * pow10((k - 1) as nat));
        }
        lemma_digit_count_log(n / 10, (k - 1) as nat);
    }
}

pub open spec fn pow10(k: nat) -> nat
    decreases k,
{
    if k == 0 {
        1
    } else {
        10 * pow10((k - 1) as nat)
    }
}

/// Appends `n` in decimal, left-padded with zeros to `width` characters.
pub fn append_zero_padded(out: &mut String, n: u64, width: usize)
    ensures
        final(out)@ == old(out)@ + zero_padded(n as nat, width as nat),
{
    let c = digit_count(n);
    let ghost start = out@;
    if c < width {
        let mut i: usize = 0;
        while i < width - c
            invariant
                c < width,
                i <= width - c,
                out@ == start + Seq::new(i as nat, |_j: int| '0'),
            decreases width - c - i,
        {
            proof {
                reveal_strlit("0");
            }
            out.append("0");
            assert(Seq::new(i as nat, |_j: int| '0').push('0') =~= Seq::new(
                (i + 1) as nat,
                |_j: int| '0',
            ));
            i = i + 1;
        }
    }
    let ghost mid = out@;
    append_digits(out, n);
    assert(out@ =~= start + zero_padded(n as nat, width as nat));
}

/// Whether two strings hold the same characters.
pub fn str_equals(a: &str, b: &str) -> (r: bool)
    ensures
        r == (a@ == b@),
{
    let n = a.unicode_len();
    if n != b.unicode_len() {
        return false;
    }
    let mut i: usize = 0;
    while i < n
        invariant
            n == a@.len(),
            n == b@.len(),
            i <= n,
            forall|j: int| 0 <= j < i ==> a@[j] == b@[j],
        decreases n - i,
    {
        if a.get_char(i) != b.get_char(i) {
            return false;
        }
        i = i + 1;
    }
    assert(a@ =~= b@);
    true
}

proof fn lemma_digits_value_prefix_grows(s: Seq<char>, k: int)
    requires
        0 <= k <= s.len(),
        all_digits(s),
    ensures
        digits_value(s.subrange(0, k)) <= digits_value(s),
    decreases s.len(),
{
    if k < s.len() {
        lemma_digits_value_prefix_grows(s.drop_last(), k);
        assert(s.drop_last().subrange(0, k) =~= s.subrange(0, k));
        lemma_digits_value_nonneg(s.drop_last());
    } else {
        assert(s.subrange(0, k) =~= s);
    }
}

proof fn lemma_digits_value_nonneg(s: Seq<char>)
    requires
        all_digits(s),
    ensures
        digits_value(s) >= 0,
    decreases s.len(),
{
    if s.len() > 0 {
        lemma_digits_value_nonneg(s.drop_last());
    }
}

/// Parses the characters of `s` from position `start` up to `end`, as
/// `str::parse` parses an unsigned integer type whose largest value is `max`.
pub fn parse_unsigned(s: &str, start: usize, end: usize, max: u64) -> (r: Option<u64>)
    requires
        start <= end <= s@.len(),
    ensures
        match r {
            Some(v) => parse_unsigned_spec(s@.subrange(start as int, end as int), max as int)
                == Some(v as int),
            None => parse_unsigned_spec(s@.subrange(start as int, end as int), max as int) is None,
        },
{
    let n = end;
    let ghost t = s@.subrange(start as int, end as int);
    let mut i = start;
    if i < n && s.get_char(i) == '+' {
        i = i + 1;
    }
    let ghost body = if t.len() > 0 && t[0] == '+' {
        t.drop_first()
    } else {
        t
    };
    assert(body =~= s@.subrange(i as int, n as int));
    if i >= n {
        return None;
    }
    let body_start = i;
    let mut acc: u64 = 0;
    while i < n
        invariant
            n <= s@.len(),
            start <= end,
            body_start <= i <= n,
            body =~= s@.subrange(body_start as int, n as int),
            t == s@.subrange(start as int, end as int),
            n == end,
            body == (if t.len() > 0 && t[0] == '+' {
                t.drop_first()
            } else {
                t
            }),
            all_digits(s@.subrange(body_start as int, i as int)),
            acc == digits_value(s@.subrange(body_start as int, i as int)),
            acc <= max,
        decreases n - i,
    {
        let c = s.get_char(i);
        if c < '0' || c > '9' {
            assert(body[i - body_start] == c);
            assert(!all_digits(body));
            return None;
        }
        let d = (c as u32 - 48u32) as u64;
        let ghost pre = s@.subrange(body_start as int, i as int);
        let ghost next = s@.subrange(body_start as int, i + 1);
        assert(next.drop_last() =~= pre);
        assert(next.last() == c);
        assert(digit_value(c) == d);
        assert forall|j: int| 0 <= j < next.len() implies is_digit(#[trigger] next[j]) by {
            if j < next.len() - 1 {
                assert(next[j] == pre[j]);
            }
        }
        assert(digits_value(next) == digits_value(pre) * 10 + digit_value(c));
        if d > max || acc > (max - d) / 10 {
            proof {
                assert(acc * 10 + d > max) by (nonlinear_arith)
                    requires
                        d > max || acc > (max - d) / 10,
                        d < 10,
                ;
                if all_digits(body) {
                    assert(next =~= body.subrange(0, i + 1 - body_start));
                    lemma_digits_value_prefix_grows(body, i + 1 - body_start);
                }
            }
            return None;
        }
        assert(acc * 10 + d <= max) by (nonlinear_arith)
            requires
                d <= max,
                acc <= (max - d) / 10,
                d < 10,
        ;
        acc = acc * 10 + d;
        i = i + 1;
    }
    assert(s@.subrange(body_start as int, n as int) =~= body);
    Some(acc)
}

/// The number in a file stem such as `"tle00001"`: the leading alphabetic
/// characters are skipped and the rest is parsed; a missing stem or a rest
/// that does not parse gives 0.
pub open spec fn file_num_spec(stem: Option<Seq<char>>) -> u32 {
    match stem {
        Some(s) => match parse_u32_spec(s.skip(alpha_prefix_len(s) as int)) {
            Some(v) => v,
            None => 0,
        },
        None => 0,
    }
}

/// Reads the number of a file stem (`"tle00001"` gives 1).
pub fn file_num_from_stem(stem: Option<&str>) -> (n: u32)
    ensures
        n == file_num_spec(
            match stem {
                Some(s) => Some(s@),
                None => None,
            },
        ),
{
    match stem {
        None => 0,
        Some(s) => {
            let len = s.unicode_len();
            let mut k: usize = 0;
            assert(s@.skip(0) =~= s@);
            while k < len && is_alphabetic(s.get_char(k))
                invariant
                    len == s@.len(),
                    k <= len,
                    alpha_prefix_len(s@) == k + alpha_prefix_len(s@.skip(k as int)),
                decreases len - k,
            {
                assert(s@.skip(k as int).drop_first() =~= s@.skip(k + 1));
                k = k + 1;
            }
            assert(alpha_prefix_len(s@.skip(k as int)) == 0);
            let r = parse_unsigned(s, k, len, 0xffff_ffffu64);
            assert(s@.subrange(k as int, len as int) =~= s@.skip(k as int));
            match r {
                Some(v) => v as u32,
                None => 0,
            }
        },
    }
}

/// A stem made of alphabetic characters followed by a zero-padded number
/// reads back as that number, provided the first digit is not alphabetic.
pub proof fn lemma_stem_number_roundtrip(prefix: Seq<char>, n: u32, width: nat)
    requires
        forall|i: int| 0 <= i < prefix.len() ==> char_is_alphabetic(#[trigger] prefix[i]),
        !char_is_alphabetic(zero_padded(n as nat, width)[0]),
    ensures
        file_num_spec(Some(prefix + zero_padded(n as nat, width))) == n,
    decreases prefix.len(),
{
    let z = zero_padded(n as nat, width);
    lemma_decimal_digits_value(n as nat);
    lemma_alpha_prefix_skip(prefix, z);
    assert((prefix + z).skip(prefix.len() as int) =~= z);
    lemma_zero_padded_parses(n, width);
}

proof fn lemma_alpha_prefix_skip(prefix: Seq<char>, z: Seq<char>)
    requires
        forall|i: int| 0 <= i < prefix.len() ==> char_is_alphabetic(#[trigger] prefix[i]),
        z.len() > 0,
        !char_is_alphabetic(z[0]),
    ensures
        alpha_prefix_len(prefix + z) == prefix.len(),
    decreases prefix.len(),
{
    if prefix.len() == 0 {
        assert(prefix + z =~= z);
    } else {
        let rest = prefix.drop_first();
        assert forall|i: int| 0 <= i < rest.len() implies char_is_alphabetic(#[trigger] rest[i]) by {
            assert(rest[i] == prefix[i + 1]);
        }
        lemma_alpha_prefix_skip(rest, z);
        assert((prefix + z).drop_first() =~= rest + z);
        assert((prefix + z)[0] == prefix[0]);
    }
}

} // verus!
