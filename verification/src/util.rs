//! Small verified helpers: string comparison, decimal numerals, and the
//! system clock.

use vstd::prelude::*;
use vstd::string::*;

verus! {

/// Character-by-character string equality, proved against the string views.
pub fn str_eq(a: &str, b: &str) -> (r: bool)
    ensures
        r == (a@ == b@),
{
    let alen = a.unicode_len();
    let blen = b.unicode_len();
    if alen != blen {
        proof {
            if a@ == b@ {
                assert(a@.len() == b@.len());
            }
        }
        return false;
    }
    let mut i: usize = 0;
    while i < alen
        invariant
            alen == a@.len(),
            blen == b@.len(),
            alen == blen,
            i <= alen,
            forall|j: int| 0 <= j < i ==> a@[j] == b@[j],
        decreases alen - i,
    {
        if a.get_char(i) != b.get_char(i) {
            proof {
                if a@ == b@ {
                    assert(a@[i as int] == b@[i as int]);
                }
            }
            return false;
        }
        i = i + 1;
    }
    proof {
        assert(a@ =~= b@);
    }
    true
}

/// The character for one decimal digit.
pub open spec fn dec_digit(d: nat) -> char
    recommends
        d < 10,
{
    if d == 0 {
        '0'
    } else if d == 1 {
        '1'
    } else if d == 2 {
        '2'
    } else if d == 3 {
        '3'
    } else if d == 4 {
        '4'
    } else if d == 5 {
        '5'
    } else if d == 6 {
        '6'
    } else if d == 7 {
        '7'
    } else if d == 8 {
        '8'
    } else {
        '9'
    }
}

/// The decimal numeral of `n`, most significant digit first.
pub open spec fn dec_chars(n: nat) -> Seq<char>
    decreases n,
{
    if n < 10 {
        seq![dec_digit(n)]
    } else {
        dec_chars(n / 10).push(dec_digit(n % 10))
    }
}

fn digit_str(d: u128) -> (r: &'static str)
    requires
        d < 10,
    ensures
        r@ == seq![dec_digit(d as nat)],
{
    proof {
        reveal_strlit("0");
        reveal_strlit("1");
        reveal_strlit("2");
        reveal_strlit("3");
        reveal_strlit("4");
        reveal_strlit("5");
        reveal_strlit("6");
        reveal_strlit("7");
        reveal_strlit("8");
        reveal_strlit("9");
    }
    let r = if d == 0 {
        "0"
    } else if d == 1 {
        "1"
    } else if d == 2 {
        "2"
    } else if d == 3 {
        "3"
    } else if d == 4 {
        "4"
    } else if d == 5 {
        "5"
    } else if d == 6 {
        "6"
    } else if d == 7 {
        "7"
    } else if d == 8 {
        "8"
    } else {
        "9"
    };
    proof {
        assert(r@ =~= seq![dec_digit(d as nat)]);
    }
    r
}

/// Renders `n` as its decimal numeral.
pub fn u128_to_string(n: u128) -> (s: String)
    ensures
        s@ == dec_chars(n as nat),
    decreases n,
{
    if n < 10 {
        String::from_str(digit_str(n))
    } else {
        let mut s = u128_to_string(n / 10);
        s.append(digit_str(n % 10));
        proof {
            assert(s@ =~= dec_chars((n / 10) as nat).push(dec_digit((n % 10) as nat)));
        }
        s
    }
}

/// A decimal digit character.
pub open spec fn is_dec_digit(c: char) -> bool {
    '0' <= c && c <= '9'
}

/// The numeric value of one digit character.
pub open spec fn digit_val(c: char) -> nat
    recommends
        is_dec_digit(c),
{
    (c as nat - '0' as nat) as nat
}

/// The value of a digit string, most significant digit first.
pub open spec fn dec_value(s: Seq<char>) -> nat
    decreases s.len(),
{
    if s.len() == 0 {
        0
    } else {
        dec_value(s.drop_last()) * 10 + digit_val(s.last())
    }
}

/// The digits of a numeral after an optional leading plus sign.
pub open spec fn numeral_body(s: Seq<char>) -> Seq<char> {
    if s.len() > 0 && s[0] == '+' {
        s.drop_first()
    } else {
        s
    }
}

/// What `str::parse::<u32>` accepts: an optional leading plus sign, then at
/// least one digit, with a value that fits in 32 bits.
pub open spec fn is_u32_numeral(s: Seq<char>) -> bool {
    let body = numeral_body(s);
    &&& body.len() > 0
    &&& forall|i: int| 0 <= i < body.len() ==> is_dec_digit(#[trigger] body[i])
    &&& dec_value(body) <= u32::MAX
}

proof fn lemma_dec_value_step(s: Seq<char>, i: int)
    requires
        0 <= i < s.len(),
    ensures
        dec_value(s.take(i + 1)) == dec_value(s.take(i)) * 10 + digit_val(s[i]),
{
    assert(s.take(i + 1).drop_last() =~= s.take(i));
    assert(s.take(i + 1).last() == s[i]);
}

proof fn lemma_dec_value_mono(s: Seq<char>, i: int)
    requires
        0 <= i <= s.len(),
    ensures
        dec_value(s.take(i)) <= dec_value(s),
    decreases s.len() - i,
{
    if i == s.len() {
        assert(s.take(i) =~= s);
    } else {
        lemma_dec_value_step(s, i);
        lemma_dec_value_mono(s, i + 1);
    }
}

/// Parses a decimal `u32` exactly as `str::parse::<u32>` does, stated over
/// the numeral grammar above.
pub fn parse_u32(s: &str) -> (r: Option<u32>)
    ensures
        r is Some <==> is_u32_numeral(s@),
        r is Some ==> r->0 == dec_value(numeral_body(s@)),
{
    let len = s.unicode_len();
    let ghost body = numeral_body(s@);
    let mut i: usize = 0;
    if len > 0 && s.get_char(0) == '+' {
        i = 1;
    }
    if i == len {
        return None;
    }
    let start = i;
    let mut acc: u64 = 0;
    while i < len
        invariant
            len == s@.len(),
            body == numeral_body(s@),
            start == (if s@.len() > 0 && s@[0] == '+' {
                1int
            } else {
                0int
            }),
            start <= i <= len,
            start < len,
            body =~= s@.subrange(start as int, len as int),
            forall|j: int| 0 <= j < i - start ==> is_dec_digit(#[trigger] body[j]),
            acc == dec_value(body.take(i - start)),
            acc <= u32::MAX,
        decreases len - i,
    {
        let c = s.get_char(i);
        if c < '0' || c > '9' {
            proof {
                assert(body[i - start] == s@[i as int]);
                assert(!is_dec_digit(body[i - start]));
            }
            return None;
        }
        let d: u64 = (c as u32 as u64) - ('0' as u32 as u64);
        let next: u64 = acc * 10 + d;
        proof {
            assert(body[i - start] == s@[i as int]);
            assert(digit_val(body[i - start]) == d);
            lemma_dec_value_step(body, i - start);
        }
        if next > u32::MAX as u64 {
            proof {
                lemma_dec_value_mono(body, i - start + 1);
            }
            return None;
        }
        acc = next;
        i = i + 1;
    }
    proof {
        assert(body.take(i - start) =~= body);
    }
    Some(acc as u32)
}

/// Relies on `std::time::SystemTime`: milliseconds since the Unix epoch by
/// the system clock.  Nothing is promised of the value; callers treat it as
/// arbitrary.
#[verifier::external_body]
pub fn get_time_ms() -> u128 {
    std::time::SystemTime::now()
        .duration_since(std::time::UNIX_EPOCH)
        .map(|d| d.as_millis())
        .unwrap_or(0)
}

} // verus!
