//! Small pieces of text building shared by the modules.
use vstd::prelude::*;

verus! {

/// The character of a decimal digit.
pub open spec fn digit_char(d: nat) -> char {
    (48 + d) as char
}

/// The decimal numeral of `n`, without sign or leading zeros.
pub open spec fn decimal(n: nat) -> Seq<char>
    decreases n,
{
    if n < 10 {
        seq![digit_char(n)]
    } else {
        decimal(n / 10) + seq![digit_char(n % 10)]
    }
}

fn digit_str(d: u64) -> (r: &'static str)
    requires
        d < 10,
    ensures
        r@ == seq![digit_char(d as nat)],
{
    match d {
        0 => {
            proof {
                reveal_strlit("0");
            }
            "0"
        },
        1 => {
            proof {
                reveal_strlit("1");
            }
            "1"
        },
        2 => {
            proof {
                reveal_strlit("2");
            }
            "2"
        },
        3 => {
            proof {
                reveal_strlit("3");
            }
            "3"
        },
        4 => {
            proof {
                reveal_strlit("4");
            }
            "4"
        },
        5 => {
            proof {
                reveal_strlit("5");
            }
            "5"
        },
        6 => {
            proof {
                reveal_strlit("6");
            }
            "6"
        },
        7 => {
            proof {
                reveal_strlit("7");
            }
            "7"
        },
        8 => {
            proof {
                reveal_strlit("8");
            }
            "8"
        },
        _ => {
            proof {
                reveal_strlit("9");
            }
            "9"
        },
    }
}

/// Appends the decimal numeral of `n` to `out`.
pub fn push_decimal(out: &mut String, n: u64)
    ensures
        final(out)@ == old(out)@ + decimal(n as nat),
    decreases n,
{
    if n >= 10 {
        push_decimal(out, n / 10);
    }
    out.append(digit_str(n % 10));
    assert(out@ == old(out)@ + decimal(n as nat));
}

/// What `format!("{:?}", s)` writes for a string: the string quoted, with
/// std's escapes.
pub uninterp spec fn str_debug_text(s: Seq<char>) -> Seq<char>;

/// The number a string of decimal digits writes, most significant first.
pub open spec fn numeral_value(s: Seq<char>) -> nat
    decreases s.len(),
{
    if s.len() == 0 {
        0
    } else {
        numeral_value(s.drop_last()) * 10 + ((s.last() as int) - 48) as nat
    }
}

proof fn lemma_digit_char_value(d: nat)
    requires
        d < 10,
    ensures
        digit_char(d) as int == 48 + d,
        '0' <= digit_char(d) <= '9',
{
}

/// `decimal(n)` is the usual decimal numeral of `n`: it is made of the
/// digits `0`-`9`, it has no leading zero (only `0` itself starts with one),
/// and read back in base ten it is `n`.
pub proof fn lemma_decimal_is_the_numeral(n: nat)
    ensures
        decimal(n).len() >= 1,
        forall|i: int| 0 <= i < decimal(n).len() ==> '0' <= #[trigger] decimal(n)[i] <= '9',
        decimal(n)[0] == '0' ==> n == 0 && decimal(n).len() == 1,
        numeral_value(decimal(n)) == n,
    decreases n,
{
    lemma_digit_char_value(n % 10);
    if n < 10 {
        assert(decimal(n).drop_last() =~= Seq::<char>::empty());
        assert(decimal(n).last() == digit_char(n));
        assert(numeral_value(decimal(n)) == numeral_value(Seq::<char>::empty()) * 10 + ((
        digit_char(n) as int) - 48) as nat);
    }
    if n >= 10 {
        lemma_decimal_is_the_numeral(n / 10);
        let d = decimal(n);
        let head = decimal(n / 10);
        assert(d == head + seq![digit_char(n % 10)]);
        assert(d.drop_last() =~= head);
        assert(d.last() == digit_char(n % 10));
        assert(numeral_value(d) == numeral_value(head) * 10 + ((digit_char(n % 10) as int)
            - 48) as nat);
        assert(n == (n / 10) * 10 + n % 10);
        assert(d[0] == head[0]);
        assert forall|i: int| 0 <= i < d.len() implies '0' <= #[trigger] d[i] <= '9' by {
            if i < head.len() {
                assert(d[i] == head[i]);
            }
        }
    }
}

/// The `Debug` text of a string, from std's formatting.
#[verifier::external_body]
pub fn str_debug(s: &str) -> (r: String)
    ensures
        r@ == str_debug_text(s@),
{
    format!("{:?}", s)
}

} // verus!
