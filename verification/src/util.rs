//! Human-readable byte sizes.
//!
//! The size is shown with one decimal in the largest of B, KB, MB, GB whose
//! value is not above 1024 (GB at most). The value is that of the byte count
//! held as an IEEE double, so counts above 2^53 are first rounded to 53
//! significant bits (to nearest, ties to even), and the decimal is rounded to
//! nearest with ties to even, as Rust's `{:.1}` does.
use vstd::prelude::*;
use vstd::string::*;
use vstd::arithmetic::div_mod::lemma_fundamental_div_mod;
use vstd::arithmetic::div_mod::lemma_div_denominator;
use crate::text::decimal;
use crate::text::decimal_string;

verus! {

/// 2^53: integers below it are exact as doubles.
pub open spec fn double_exact_limit() -> nat {
    0x20_0000_0000_0000
}

/// The power of two by which `n` is scaled down to fit a double's mantissa.
pub open spec fn double_scale(n: nat) -> nat
    decreases n,
{
    if n < double_exact_limit() {
        1
    } else {
        2 * double_scale(n / 2)
    }
}

/// `num / den` rounded to the nearest integer, ties to the even one.
pub open spec fn round_half_even(num: nat, den: nat) -> nat {
    let q = num / den;
    let r = num % den;
    if 2 * r > den || (2 * r == den && q % 2 == 1) {
        q + 1
    } else {
        q
    }
}

/// The integer value of `n` once converted to a double.
pub open spec fn double_value(n: nat) -> nat {
    round_half_even(n, double_scale(n)) * double_scale(n)
}

/// Index of the unit (0: B, 1: KB, 2: MB, 3: GB) chosen for a value.
pub open spec fn size_unit(v: nat) -> nat {
    if v <= 1024 {
        0
    } else if v <= 0x10_0000 {
        1
    } else if v <= 0x4000_0000 {
        2
    } else {
        3
    }
}

/// Bytes per unit.
pub open spec fn unit_bytes(u: nat) -> nat {
    if u == 0 {
        1
    } else if u == 1 {
        1024
    } else if u == 2 {
        0x10_0000
    } else {
        0x4000_0000
    }
}

pub open spec fn unit_name(u: nat) -> Seq<char> {
    if u == 0 {
        "B"@
    } else if u == 1 {
        "KB"@
    } else if u == 2 {
        "MB"@
    } else {
        "GB"@
    }
}

/// The text shown for a byte count: tenths of the chosen unit, one decimal.
pub open spec fn human_size_text(bytes: nat) -> Seq<char> {
    let v = double_value(bytes);
    let u = size_unit(v);
    let tenths = round_half_even(v * 10, unit_bytes(u));
    decimal(tenths / 10) + "."@ + decimal(tenths % 10) + " "@ + unit_name(u)
}

fn double_value_of(n: u64) -> (v: u128)
    ensures
        v == double_value(n as nat),
        v <= 2 * 0x1_0000_0000_0000_0000,
{
    let mut m: u128 = n as u128;
    let mut d: u128 = 1;
    while m >= 0x20_0000_0000_0000
        invariant
            1 <= d <= 0x1_0000_0000_0000_0000,
            m == n as nat / d as nat,
            d * double_scale(m as nat) == double_scale(n as nat),
            m * d <= n,
        decreases m,
    {
        let ghost m0 = m;
        let ghost d0 = d;
        proof {
            lemma_div_denominator(n as int, d as int, 2);
            assert(double_scale(m0 as nat) == 2 * double_scale((m0 / 2) as nat));
            assert(d0 * 2 <= 0x1_0000_0000_0000_0000) by (nonlinear_arith)
                requires
                    m0 >= 0x20_0000_0000_0000,
                    m0 * d0 <= n,
                    n < 0x1_0000_0000_0000_0000,
            ;
            assert((m0 / 2) * (d0 * 2) <= m0 * d0) by (nonlinear_arith)
                requires
                    m0 >= 1,
            ;
        }
        m = m / 2;
        d = d * 2;
        proof {
            assert(d * double_scale(m as nat) == double_scale(n as nat)) by (nonlinear_arith)
                requires
                    d == d0 * 2,
                    d0 * double_scale(m0 as nat) == double_scale(n as nat),
                    double_scale(m0 as nat) == 2 * double_scale(m as nat),
            ;
        }
    }
    assert(double_scale(m as nat) == 1);
    let r = n as u128 % d;
    proof {
        lemma_fundamental_div_mod(n as int, d as int);
    }
    let q = if 2 * r > d || (2 * r == d && m % 2 == 1) { m + 1 } else { m };
    proof {
        assert(q * d <= 2 * 0x1_0000_0000_0000_0000) by (nonlinear_arith)
            requires
                q <= m + 1,
                m * d <= n,
                d <= 0x1_0000_0000_0000_0000,
                n < 0x1_0000_0000_0000_0000,
        ;
    }
    assert(d == double_scale(n as nat)) by (nonlinear_arith)
        requires
            d * double_scale(m as nat) == double_scale(n as nat),
            double_scale(m as nat) == 1,
    ;
    assert(q == round_half_even(n as nat, d as nat));
    q * d
}

/// Format bytes into a human-readable string.
pub fn human_size(bytes: u64) -> (s: String)
    ensures
        s@ == human_size_text(bytes as nat),
{
    let v = double_value_of(bytes);
    let (unit_div, name): (u128, &str) = if v <= 1024 {
        (1, "B")
    } else if v <= 0x10_0000 {
        (1024, "KB")
    } else if v <= 0x4000_0000 {
        (0x10_0000, "MB")
    } else {
        (0x4000_0000, "GB")
    };
    let num = v * 10;
    let q = num / unit_div;
    let r = num % unit_div;
    let tenths = if 2 * r > unit_div || (2 * r == unit_div && q % 2 == 1) { q + 1 } else { q };
    let mut s = decimal_string(tenths / 10);
    s.append(".");
    let frac = decimal_string(tenths % 10);
    s.append(frac.as_str());
    s.append(" ");
    s.append(name);
    s
}

/// What `std::path::Path::strip_prefix` gives for `path` and `base`: the
/// rest of `path` after the whole components of `base`, or none when `base`
/// is not a component prefix of `path`.
pub uninterp spec fn spec_strip_prefix(path: Seq<char>, base: Seq<char>) -> Option<Seq<char>>;

/// Calls `std::path::Path::strip_prefix`. The contract claims that the result
/// is what that function gives for the two paths, converted to a string;
/// nothing more of component matching is stated.
#[verifier::external_body]
fn strip_path_prefix(path: &str, base: &str) -> (r: Option<String>)
    ensures
        match spec_strip_prefix(path@, base@) {
            Some(rest) => r matches Some(s) && s@ == rest,
            None => r is None,
        },
{
    std::path::Path::new(path).strip_prefix(base).ok().map(|rest| rest.to_string_lossy().into_owned())
}

/// The display of `path` given `rest_under_home`, its part below the home
/// directory when it lies there: `~/` and that part, else the path itself.
pub fn home_relative_display(path: &str, rest_under_home: Option<&str>) -> (s: String)
    ensures
        s@ == match rest_under_home {
            Some(rest) => "~/"@ + rest@,
            None => path@,
        },
{
    match rest_under_home {
        Some(rest) => String::from_str("~/").concat(rest),
        None => String::from_str(path),
    }
}

/// Replace the user's home directory `home` (when set) with `~` for display.
pub fn display_path(path: &str, home: Option<&str>) -> (s: String)
    ensures
        s@ == match home {
            Some(h) => match spec_strip_prefix(path@, h@) {
                Some(rest) => "~/"@ + rest,
                None => path@,
            },
            None => path@,
        },
{
    match home {
        Some(h) => {
            let rest = strip_path_prefix(path, h);
            match rest {
                Some(r) => home_relative_display(path, Some(r.as_str())),
                None => home_relative_display(path, None),
            }
        },
        None => home_relative_display(path, None),
    }
}

} // verus!
