//! Decimal rendering of the snapshot's integer readings, and the
//! RAM-usage percentage in hundredths of a percent.

use vstd::prelude::*;

verus! {

/// The decimal digit character for `d`.
pub open spec fn digit_char(d: int) -> char {
    if d == 0 {
        '0'
    } else if d == 1 {
        '1'
    } else if d == 2 {
        '2'
    } else if d == 3 {
        '3'
    } else if d == 4 {
        '4'
    } else if d == 5 {
        '5'
    } else if d == 6 {
        '6'
    } else if d == 7 {
        '7'
    } else if d == 8 {
        '8'
    } else {
        '9'
    }
}

/// The decimal digits of `n`, most significant first.
pub open spec fn dec_spec(n: nat) -> Seq<char>
    decreases n,
{
    if n < 10 {
        seq![digit_char(n as int)]
    } else {
        dec_spec(n / 10) + seq![digit_char((n % 10) as int)]
    }
}

fn digit_str(d: u128) -> (r: &'static str)
    requires
        d < 10,
    ensures
        r@ == seq![digit_char(d as int)],
{
    if d == 0 {
        proof {
            reveal_strlit("0");
            assert("0"@ =~= seq!['0']);
        }
        "0"
    } else if d == 1 {
        proof {
            reveal_strlit("1");
            assert("1"@ =~= seq!['1']);
        }
        "1"
    } else if d == 2 {
        proof {
            reveal_strlit("2");
            assert("2"@ =~= seq!['2']);
        }
        "2"
    } else if d == 3 {
        proof {
            reveal_strlit("3");
            assert("3"@ =~= seq!['3']);
        }
        "3"
    } else if d == 4 {
        proof {
            reveal_strlit("4");
            assert("4"@ =~= seq!['4']);
        }
        "4"
    } else if d == 5 {
        proof {
            reveal_strlit("5");
            assert("5"@ =~= seq!['5']);
        }
        "5"
    } else if d == 6 {
        proof {
            reveal_strlit("6");
            assert("6"@ =~= seq!['6']);
        }
        "6"
    } else if d == 7 {
        proof {
            reveal_strlit("7");
            assert("7"@ =~= seq!['7']);
        }
        "7"
    } else if d == 8 {
        proof {
            reveal_strlit("8");
            assert("8"@ =~= seq!['8']);
        }
        "8"
    } else {
        proof {
            reveal_strlit("9");
            assert("9"@ =~= seq!['9']);
        }
        "9"
    }
}

/// The decimal rendering of `n`.
pub fn u128_to_string(n: u128) -> (r: String)
    ensures
        r@ == dec_spec(n as nat),
    decreases n,
{
    if n < 10 {
        String::from_str(digit_str(n))
    } else {
        let mut s = u128_to_string(n / 10);
        s.append(digit_str(n % 10));
        proof {
            assert(s@ =~= dec_spec(n as nat));
        }
        s
    }
}

/// The decimal rendering of a 64-bit reading.
pub fn u64_to_string(n: u64) -> (r: String)
    ensures
        r@ == dec_spec(n as nat),
{
    u128_to_string(n as u128)
}

/// The decimal rendering of a count.
pub fn usize_to_string(n: usize) -> (r: String)
    ensures
        r@ == dec_spec(n as nat),
{
    u128_to_string(n as u128)
}

/// `used / total * 100` in hundredths of a percent, truncated, and `0`
/// when `total` is zero.
pub open spec fn pct_hundredths(total: u64, used: u64) -> int {
    if total == 0 {
        0
    } else {
        (used * 10000) / (total as int)
    }
}

/// The usage percentage rendered with two decimal places.
pub open spec fn pct_string(total: u64, used: u64) -> Seq<char> {
    let h = pct_hundredths(total, used);
    dec_spec((h / 100) as nat) + seq!['.'] + seq![digit_char((h % 100) / 10)] + seq![
        digit_char(h % 10),
    ]
}

/// The RAM usage `used / total * 100` rendered with two decimal places,
/// `0.00` when `total` is zero.
pub fn format_pct(total: u64, used: u64) -> (r: String)
    ensures
        r@ == pct_string(total, used),
{
    let h: u128 = if total == 0 {
        0
    } else {
        (used as u128 * 10000) / (total as u128)
    };
    proof {
        assert(h as int == pct_hundredths(total, used));
        assert(h % 100 < 100) by {
            assert(h % 100 == h as int % 100);
        }
    }
    let mut s = u128_to_string(h / 100);
    s.append(".");
    proof {
        reveal_strlit(".");
        assert("."@ =~= seq!['.']);
    }
    s.append(digit_str((h % 100) / 10));
    s.append(digit_str(h % 10));
    proof {
        assert((h % 100) as int / 10 == (h as int % 100) / 10);
        assert((h % 10) as int == h as int % 10);
        assert((h as int % 100) / 10 == (pct_hundredths(total, used) % 100) / 10);
        assert(s@ =~= pct_string(total, used));
    }
    s
}

} // verus!
