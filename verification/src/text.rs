//! Decimal text: numbers written into messages, numbers read from settings.

use vstd::prelude::*;

verus! {

/// The decimal digit of `d`, for `d` below ten.
pub open spec fn digit(d: nat) -> char {
    (48 + d) as char
}

/// `n` in decimal notation, without leading zeros.
pub open spec fn dec(n: nat) -> Seq<char>
    decreases n,
{
    if n < 10 {
        seq![digit(n)]
    } else {
        dec(n / 10).push(digit(n % 10))
    }
}

/// `true` for the ten ASCII digits.
pub open spec fn is_digit(c: char) -> bool {
    '0' <= c && c <= '9'
}

pub open spec fn all_digits(s: Seq<char>) -> bool {
    forall|i: int| 0 <= i < s.len() ==> is_digit(#[trigger] s[i])
}

/// The number that a sequence of digits denotes.
pub open spec fn digits_value(s: Seq<char>) -> nat
    decreases s.len(),
{
    if s.len() == 0 {
        0
    } else {
        digits_value(s.drop_last()) * 10 + (s.last() as nat - 48) as nat
    }
}

/// The number written in `s`: one or more digits behind an optional plus sign.
pub open spec fn unsigned_text(s: Seq<char>) -> Option<nat> {
    let body = if s.len() > 0 && s[0] == '+' {
        s.skip(1)
    } else {
        s
    };
    if body.len() > 0 && all_digits(body) {
        Some(digits_value(body))
    } else {
        None
    }
}

/// The number written in `s`: one or more digits behind an optional sign.
pub open spec fn signed_text(s: Seq<char>) -> Option<int> {
    if s.len() > 0 && s[0] == '-' {
        if s.len() > 1 && all_digits(s.skip(1)) {
            Some(-(digits_value(s.skip(1)) as int))
        } else {
            None
        }
    } else {
        match unsigned_text(s) {
            Some(n) => Some(n as int),
            None => None,
        }
    }
}

/// `n` if it is at most `max`.
pub open spec fn at_most(n: Option<nat>, max: nat) -> Option<nat> {
    match n {
        Some(v) => if v <= max {
            Some(v)
        } else {
            None
        },
        None => None,
    }
}

fn digit_str(d: u64) -> (s: &'static str)
    requires
        d < 10,
    ensures
        s@ == seq![digit(d as nat)],
{
    proof {
        reveal_strlit("0");
        reveal_strlit("1");
        reveal_strlit("2");
        reveal_strlit("3");
        reveal_strlit("4");
        reveal_strlit("5");
        reveal_strlit("6");
        reveal_strlit("7");
        reveal_strlit("8");
        reveal_strlit("9");
    }
    if d == 0 {
        "0"
    } else if d == 1 {
        "1"
    } else if d == 2 {
        "2"
    } else if d == 3 {
        "3"
    } else if d == 4 {
        "4"
    } else if d == 5 {
        "5"
    } else if d == 6 {
        "6"
    } else if d == 7 {
        "7"
    } else if d == 8 {
        "8"
    } else {
        "9"
    }
}

/// Appends `n` in decimal notation.
pub fn push_dec(out: &mut String, n: u64)
    ensures
        final(out)@ == old(out)@ + dec(n as nat),
    decreases n,
{
    if n < 10 {
        out.append(digit_str(n));
    } else {
        push_dec(out, n / 10);
        let ghost mid = out@;
        out.append(digit_str(n % 10));
        assert(out@ =~= old(out)@ + dec(n as nat));
    }
}

proof fn lemma_digits_value_step(s: Seq<char>, i: int)
    requires
        0 <= i < s.len(),
    ensures
        digits_value(s.take(i + 1)) == digits_value(s.take(i)) * 10 + (s[i] as nat - 48) as nat,
{
    assert(s.take(i + 1).drop_last() =~= s.take(i));
    assert(s.take(i + 1).last() == s[i]);
}

proof fn lemma_digits_value_monotone(s: Seq<char>, i: int)
    requires
        0 <= i <= s.len(),
    ensures
        digits_value(s.take(i)) <= digits_value(s),
    decreases s.len() - i,
{
    if i < s.len() {
        lemma_digits_value_step(s, i);
        lemma_digits_value_monotone(s, i + 1);
    } else {
        assert(s.take(i) =~= s);
    }
}

/// Reads the digits of `s` from position `from` on, as long as the number stays
/// within `max`.
fn digits_from(s: &str, from: usize, max: u64) -> (r: Option<u64>)
    requires
        from <= s@.len(),
    ensures
        r matches Some(v) ==> from < s@.len() && all_digits(s@.skip(from as int)) && v
            == digits_value(s@.skip(from as int)) && v <= max,
        r is None ==> from == s@.len() || !all_digits(s@.skip(from as int)) || digits_value(
            s@.skip(from as int),
        ) > max,
{
    let n: usize = s.unicode_len();
    if from == n {
        return None;
    }
    let ghost body = s@.skip(from as int);
    let mut i: usize = from;
    let mut v: u64 = 0;
    assert(body.take(0) =~= Seq::<char>::empty());
    while i < n
        invariant
            from <= i <= n,
            n == s@.len(),
            body == s@.skip(from as int),
            v == digits_value(body.take(i - from)),
            v <= max,
            forall|k: int| 0 <= k < i - from ==> is_digit(#[trigger] body[k]),
        decreases n - i,
    {
        let c: char = s.get_char(i);
        assert(body[i - from] == c);
        proof {
            lemma_digits_value_step(body, i - from);
            lemma_digits_value_monotone(body, i - from + 1);
        }
        if c < '0' || c > '9' {
            return None;
        }
        let d: u64 = (c as u32 - 48) as u64;
        if v > (u64::MAX - d) / 10 {
            return None;
        }
        let w: u64 = v * 10 + d;
        if w > max {
            return None;
        }
        v = w;
        i = i + 1;
    }
    assert(body.take(n - from) =~= body);
    Some(v)
}

/// Reads an unsigned number that is at most `max`.
pub fn parse_unsigned(s: &str, max: u64) -> (r: Option<u64>)
    ensures
        match r {
            Some(v) => at_most(unsigned_text(s@), max as nat) == Some(v as nat),
            None => at_most(unsigned_text(s@), max as nat) is None,
        },
{
    let n: usize = s.unicode_len();
    assert(s@.skip(0) =~= s@);
    if n > 0 && s.get_char(0) == '+' {
        digits_from(s, 1, max)
    } else {
        digits_from(s, 0, max)
    }
}

/// Reads a `usize`.
pub fn parse_usize(s: &str) -> (r: Option<usize>)
    ensures
        match r {
            Some(v) => at_most(unsigned_text(s@), usize::MAX as nat) == Some(v as nat),
            None => at_most(unsigned_text(s@), usize::MAX as nat) is None,
        },
{
    match parse_unsigned(s, usize::MAX as u64) {
        Some(v) => Some(v as usize),
        None => None,
    }
}

/// Reads an `i32`.
pub fn parse_i32(s: &str) -> (r: Option<i32>)
    ensures
        match r {
            Some(v) => signed_text(s@) == Some(v as int),
            None => match signed_text(s@) {
                Some(v) => v < i32::MIN || v > i32::MAX,
                None => true,
            },
        },
{
    let n: usize = s.unicode_len();
    if n > 0 && s.get_char(0) == '-' {
        match digits_from(s, 1, 2_147_483_648) {
            Some(v) => Some((-(v as i64)) as i32),
            None => None,
        }
    } else {
        match parse_unsigned(s, 2_147_483_647) {
            Some(v) => Some(v as i32),
            None => None,
        }
    }
}

/// Decimal notation can be read back: it is made of digits, it denotes the number that was
/// written, and it has no zero in front of another digit.
pub proof fn law_decimal_reads_back(n: nat)
    ensures
        dec(n).len() > 0,
        all_digits(dec(n)),
        digits_value(dec(n)) == n,
        unsigned_text(dec(n)) == Some(n),
        signed_text(dec(n)) == Some(n as int),
        dec(n).len() > 1 ==> dec(n)[0] != '0',
    decreases n,
{
    let s = dec(n);
    if n < 10 {
        assert(s.drop_last() =~= Seq::<char>::empty());
        assert(digits_value(Seq::<char>::empty()) == 0);
        assert(s.last() == digit(n));
    } else {
        law_decimal_reads_back(n / 10);
        assert(s.drop_last() =~= dec(n / 10));
        assert(s.last() == digit(n % 10));
        assert(digits_value(s) == digits_value(dec(n / 10)) * 10 + (digit(n % 10) as nat - 48)
            as nat);
        if dec(n / 10).len() == 1 {
            assert(n / 10 < 10) by {
                if n / 10 >= 10 {
                    law_decimal_reads_back(n / 10 / 10);
                }
            }
            assert(s[0] == digit(n / 10));
        }
    }
    assert(is_digit(s[0]));
}

/// Different numbers are written differently.
pub proof fn law_decimal_tells_apart(a: nat, b: nat)
    ensures
        dec(a) == dec(b) <==> a == b,
{
    law_decimal_reads_back(a);
    law_decimal_reads_back(b);
}

/// A sign in front changes the sign of the number and nothing else. Two signs, a sign alone and
/// no text at all are no numbers.
pub proof fn law_signs(n: nat)
    ensures
        unsigned_text(seq!['+'] + dec(n)) == Some(n),
        signed_text(seq!['+'] + dec(n)) == Some(n as int),
        signed_text(seq!['-'] + dec(n)) == Some(-(n as int)),
        unsigned_text(seq!['-'] + dec(n)) is None,
        unsigned_text(seq!['+', '+'] + dec(n)) is None,
        signed_text(seq!['+', '-'] + dec(n)) is None,
        signed_text(seq!['-', '+'] + dec(n)) is None,
        unsigned_text(seq!['+']) is None,
        signed_text(seq!['-']) is None,
        unsigned_text(Seq::<char>::empty()) is None,
        signed_text(Seq::<char>::empty()) is None,
{
    law_decimal_reads_back(n);
    let plus = seq!['+'] + dec(n);
    let minus = seq!['-'] + dec(n);
    assert(plus.skip(1) =~= dec(n));
    assert(minus.skip(1) =~= dec(n));
    assert(!is_digit(minus[0]));
    let pp = (seq!['+', '+'] + dec(n)).skip(1);
    assert(pp[0] == '+' && !is_digit(pp[0]));
    let pm = seq!['+', '-'] + dec(n);
    assert(pm.skip(1)[0] == '-' && !is_digit(pm.skip(1)[0]));
    let mp = seq!['-', '+'] + dec(n);
    assert(mp.skip(1)[0] == '+' && !is_digit(mp.skip(1)[0]));
}

/// One more digit behind a number makes it ten times itself plus that digit; a character that is
/// no digit makes it no number.
pub proof fn law_digits_are_positional(s: Seq<char>, c: char)
    requires
        s.len() > 0,
        all_digits(s),
    ensures
        is_digit(c) ==> unsigned_text(s.push(c)) == Some(
            (10 * unsigned_text(s)->0 + (c as nat - '0' as nat)) as nat,
        ),
        !is_digit(c) ==> unsigned_text(s.push(c)) is None && signed_text(s.push(c)) is None,
        unsigned_text(s) is Some,
{
    let t = s.push(c);
    assert(t.drop_last() =~= s);
    assert(t.last() == c);
    assert(is_digit(s[0]));
    assert(t[0] == s[0]);
    assert(t[s.len() as int] == c);
    if is_digit(c) {
        assert forall|i: int| 0 <= i < t.len() implies is_digit(#[trigger] t[i]) by {
            if i < s.len() {
                assert(t[i] == s[i]);
            }
        }
    }
}

/// A bound keeps a number just where it is not above it.
pub proof fn law_at_most(n: nat, max: nat)
    ensures
        at_most(Some(n), max) is Some <==> n <= max,
        at_most(Some(n), max) matches Some(v) ==> v == n,
        at_most(None, max) is None,
{
}

} // verus!
