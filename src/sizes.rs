//! Human-readable byte counts.
use vstd::prelude::*;
use vstd::string::*;
use crate::text::string_of_chars;

verus! {

pub open spec fn pow1024(k: nat) -> nat
    decreases k,
{
    if k == 0 {
        1
    } else {
        1024 * pow1024((k - 1) as nat)
    }
}

/// The largest unit index `k <= 4` with `1024^k <= n`.
pub open spec fn unit_index(n: nat) -> nat {
    if n >= pow1024(4) {
        4
    } else if n >= pow1024(3) {
        3
    } else if n >= pow1024(2) {
        2
    } else if n >= pow1024(1) {
        1
    } else {
        0
    }
}

pub open spec fn unit_name(k: nat) -> Seq<char> {
    if k == 0 {
        "B"@
    } else if k == 1 {
        "KB"@
    } else if k == 2 {
        "MB"@
    } else if k == 3 {
        "GB"@
    } else {
        "TB"@
    }
}

pub open spec fn digit_char(d: nat) -> char {
    ((48 + d) as u8) as char
}

/// The decimal digits of `n`.
pub open spec fn decimal(n: nat) -> Seq<char>
    decreases n,
{
    if n < 10 {
        seq![digit_char(n)]
    } else {
        decimal(n / 10) + seq![digit_char(n % 10)]
    }
}

/// `a / b` rounded to the nearest integer, ties to even.
pub open spec fn div_round_even(a: nat, b: nat) -> nat
    recommends
        b > 0,
{
    let q = a / b;
    let r = a % b;
    if 2 * r > b || (2 * r == b && q % 2 == 1) {
        q + 1
    } else {
        q
    }
}

/// Tenths of the size in its unit, rounded to nearest, ties to even.
pub open spec fn tenths(n: nat) -> nat {
    div_round_even(n * 10, pow1024(unit_index(n)))
}

/// `0 B`; a count under 1024 as an integer of bytes; otherwise the size in
/// the largest unit not above it (KB to TB, powers of 1024) with one decimal.
pub open spec fn file_size_text(n: nat) -> Seq<char> {
    if unit_index(n) == 0 {
        decimal(n) + " "@ + unit_name(0)
    } else {
        decimal(tenths(n) / 10) + "."@ + seq![digit_char(tenths(n) % 10)] + " "@ + unit_name(unit_index(n))
    }
}

fn push_decimal(out: &mut Vec<char>, n: u128)
    ensures
        final(out)@ == old(out)@ + decimal(n as nat),
    decreases n,
{
    if n >= 10 {
        push_decimal(out, n / 10);
    }
    let d = (n % 10) as u8;
    out.push((48u8 + d) as char);
    proof {
        if n >= 10 {
            assert(old(out)@ + decimal(n as nat) =~= old(out)@ + decimal((n / 10) as nat) + seq![digit_char((n % 10) as nat)]);
        } else {
            assert(old(out)@ + decimal(n as nat) =~= old(out)@.push(digit_char(n as nat)));
        }
    }
}

/// A byte count in human-readable form, as `file_size_text` states it.
pub fn format_file_size(size_bytes: u64) -> (r: String)
    ensures
        r@ == file_size_text(size_bytes as nat),
{
    let n = size_bytes as u128;
    proof {
        reveal_with_fuel(pow1024, 5);
        assert(pow1024(4) == 1099511627776);
    }
    let (k, d): (u128, u128) = if n >= 1099511627776 {
        (4, 1099511627776)
    } else if n >= 1073741824 {
        (3, 1073741824)
    } else if n >= 1048576 {
        (2, 1048576)
    } else if n >= 1024 {
        (1, 1024)
    } else {
        (0, 1)
    };
    assert(k == unit_index(size_bytes as nat) && d == pow1024(k as nat));
    let mut out: Vec<char> = Vec::new();
    if k == 0 {
        push_decimal(&mut out, n);
        let s = string_of_chars(&out).concat(" B");
        proof {
            reveal_strlit(" B");
            reveal_strlit(" ");
            reveal_strlit("B");
            assert(Seq::<char>::empty() + decimal(n as nat) =~= decimal(n as nat));
            assert(s@ =~= decimal(n as nat) + " "@ + unit_name(0));
        }
        return s;
    }
    let a = n * 10;
    let q = a / d;
    let rem = a % d;
    let t: u128 = if 2 * rem > d || (2 * rem == d && q % 2 == 1) {
        q + 1
    } else {
        q
    };
    assert(t == tenths(size_bytes as nat));
    push_decimal(&mut out, t / 10);
    out.push('.');
    out.push((48u8 + (t % 10) as u8) as char);
    let head = string_of_chars(&out);
    let unit = if k == 1 {
        " KB"
    } else if k == 2 {
        " MB"
    } else if k == 3 {
        " GB"
    } else {
        " TB"
    };
    proof {
        reveal_strlit(" KB");
        reveal_strlit(" MB");
        reveal_strlit(" GB");
        reveal_strlit(" TB");
        reveal_strlit("KB");
        reveal_strlit("MB");
        reveal_strlit("GB");
        reveal_strlit("TB");
        reveal_strlit(" ");
        assert(unit@ =~= " "@ + unit_name(k as nat));
    }
    let s = head.concat(unit);
    proof {
        reveal_strlit(".");
        assert(s@ =~= decimal((t / 10) as nat) + "."@ + seq![digit_char((t % 10) as nat)] + " "@
            + unit_name(k as nat));
    }
    s
}

} // verus!
