//! Text helpers shared by the error messages and the planners.

use vstd::prelude::*;

verus! {

/// What `format!("{:?}", Path::new(p))` gives for the path `p`: the path
/// quoted, with escapes.
pub uninterp spec fn std_debug_path(p: Seq<char>) -> Seq<char>;

/// Calls `format!("{:?}", ..)` on a `std::path::Path`, which quotes and
/// escapes it. The result is taken as the name `std_debug_path` of `p`, and
/// nothing more is said of it.
#[verifier::external_body]
pub(crate) fn debug_path(p: &str) -> (r: String)
    ensures
        r@ == std_debug_path(p@),
{
    format!("{:?}", std::path::Path::new(p))
}

/// The decimal digits of `n`, most significant first.
pub open spec fn nat_decimal(n: nat) -> Seq<char>
    decreases n,
{
    if n < 10 {
        seq!["0123456789"@[n as int]]
    } else {
        nat_decimal(n / 10).push("0123456789"@[(n % 10) as int])
    }
}

/// `n` in decimal, with a leading `-` when it is negative, as `Display` and
/// `Debug` print an integer.
pub open spec fn int_decimal(n: int) -> Seq<char> {
    if n < 0 {
        seq!['-'] + nat_decimal((-n) as nat)
    } else {
        nat_decimal(n as nat)
    }
}

/// The decimal digit `d`, as text.
fn digit(d: u64) -> (r: &'static str)
    requires
        d < 10,
    ensures
        r@ == seq!["0123456789"@[d as int]],
{
    proof {
        reveal_strlit("0123456789");
    }
    let digits = "0123456789";
    let r = digits.substring_char(d as usize, d as usize + 1);
    assert(r@ =~= seq!["0123456789"@[d as int]]);
    r
}

/// Writes `n` in decimal.
pub fn decimal(n: i64) -> (r: String)
    ensures
        r@ == int_decimal(n as int),
{
    let negative = n < 0;
    let mut m: u64 = if n == i64::MIN {
        9223372036854775808u64
    } else if negative {
        (-n) as u64
    } else {
        n as u64
    };
    let ghost whole = m as nat;
    let mut acc = String::new();
    while m >= 10
        invariant
            nat_decimal(whole) == nat_decimal(m as nat) + acc@,
        decreases m,
    {
        let d = digit(m % 10);
        assert(nat_decimal(m as nat) == nat_decimal((m / 10) as nat).push(
            "0123456789"@[(m % 10) as int],
        ));
        acc = String::from_str(d).concat(acc.as_str());
        assert(nat_decimal(whole) =~= nat_decimal((m / 10) as nat) + acc@);
        m = m / 10;
    }
    let d = digit(m);
    let digits = String::from_str(d).concat(acc.as_str());
    assert(nat_decimal(whole) =~= digits@);
    if negative {
        let minus = "-";
        proof {
            reveal_strlit("-");
        }
        let r = String::from_str(minus).concat(digits.as_str());
        assert(r@ =~= seq!['-'] + nat_decimal(whole));
        r
    } else {
        digits
    }
}

/// `Debug` of an `Option<i32>`: `None`, or `Some(..)` around the number.
pub open spec fn option_i32_debug(code: Option<i32>) -> Seq<char> {
    match code {
        None => "None"@,
        Some(c) => "Some("@ + int_decimal(c as int) + ")"@,
    }
}

/// Writes an `Option<i32>` as `Debug` prints it.
pub fn debug_option_i32(code: Option<i32>) -> (r: String)
    ensures
        r@ == option_i32_debug(code),
{
    match code {
        None => String::from_str("None"),
        Some(c) => String::from_str("Some(").concat(decimal(c as i64).as_str()).concat(")"),
    }
}

/// A copy of a list of strings.
pub fn clone_strings(v: &Vec<String>) -> (r: Vec<String>)
    ensures
        r.deep_view() == v.deep_view(),
{
    let mut out: Vec<String> = Vec::new();
    let mut k: usize = 0;
    while k < v.len()
        invariant
            k <= v.len(),
            out.deep_view() == v.deep_view().take(k as int),
        decreases v.len() - k,
    {
        let s = v[k].clone();
        let ghost prev = out.deep_view();
        out.push(s);
        assert(out.deep_view() =~= prev.push(v[k as int]@));
        assert(v.deep_view().take(k + 1) =~= v.deep_view().take(k as int).push(v[k as int]@));
        k = k + 1;
    }
    assert(v.deep_view().take(v.len() as int) =~= v.deep_view());
    out
}

} // verus!
