//! Byte counts in words.
//!
//! A count is shown in a binary unit with a fixed number of decimals, as a
//! double-precision division would show it: the count is first taken to the
//! nearest number of 53 significant bits, and the quotient is rounded in
//! decimal, both with ties to even. All of it is integer arithmetic.

use crate::text::{
    chars_of, decimal, digit_char, lemma_find_char, position_of, string_of, wide_decimal_of,
};
use vstd::arithmetic::div_mod::lemma_fundamental_div_mod_converse;
use vstd::prelude::*;
use vstd::string::*;

verus! {

/// `n / d` rounded to the nearest integer, ties to the even one.
pub open spec fn half_even(n: nat, d: nat) -> nat
    recommends
        d > 0,
{
    let q = n / d;
    let r = n % d;
    if 2 * r > d || (2 * r == d && q % 2 == 1) {
        q + 1
    } else {
        q
    }
}

/// The distance between neighbours among the numbers of 53 significant bits
/// around `n`.
pub open spec fn spacing(n: nat) -> nat
    decreases n,
{
    if n < 0x20_0000_0000_0000 {
        1
    } else {
        2 * spacing(n / 2)
    }
}

/// The number of 53 significant bits nearest to `n`, ties to even.
pub open spec fn nearest_double(n: nat) -> nat {
    half_even(n, spacing(n)) * spacing(n)
}

/// `n / unit` in decimal with one decimal place.
pub open spec fn one_place(n: nat, unit: nat) -> Seq<char> {
    let t = half_even(nearest_double(n) * 10, unit);
    decimal(t / 10).push('.').push(digit_char(t % 10))
}

/// `n / unit` in decimal with two decimal places.
pub open spec fn two_places(n: nat, unit: nat) -> Seq<char> {
    let t = half_even(nearest_double(n) * 100, unit);
    decimal(t / 100).push('.').push(digit_char((t / 10) % 10)).push(digit_char(t % 10))
}

/// A number with decimal places, without the zeros at its end behind the point,
/// nor the point where nothing is left behind it.
pub open spec fn shortened(s: Seq<char>) -> Seq<char>
    decreases s.len(),
{
    if !s.contains('.') {
        s
    } else if s.last() == '0' {
        shortened(s.drop_last())
    } else if s.last() == '.' {
        s.drop_last()
    } else {
        s
    }
}

/// A kilobyte, in bytes.
pub const KB: u64 = 1024;

/// A megabyte, in bytes.
pub const MB: u64 = 1048576;

/// A gigabyte, in bytes.
pub const GB: u64 = 1073741824;

/// A terabyte, in bytes.
pub const TB: u64 = 1099511627776;

fn half_even_of(n: u128, d: u128) -> (r: u128)
    requires
        d > 0,
        d <= u64::MAX,
        n <= u128::MAX - 1,
    ensures
        r == half_even(n as nat, d as nat),
{
    let q: u128 = n / d;
    let r: u128 = n % d;
    assert(q <= n) by (nonlinear_arith)
        requires
            q == n / d,
            d > 0,
    ;
    if 2 * r > d || (2 * r == d && q % 2 == 1) {
        q + 1
    } else {
        q
    }
}

/// Numbers of 53 significant bits lie close enough for their size.
pub proof fn lemma_spacing_bound(n: nat)
    ensures
        spacing(n) >= 1,
        n >= 0x20_0000_0000_0000 ==> spacing(n) * 0x10_0000_0000_0000 <= n,
        n < 0x20_0000_0000_0000 ==> spacing(n) == 1,
    decreases n,
{
    if n >= 0x20_0000_0000_0000 {
        lemma_spacing_bound(n / 2);
    }
}

fn spacing_of(n: u64) -> (r: u64)
    ensures
        r == spacing(n as nat),
        1 <= r <= 0x1000,
    decreases n,
{
    proof {
        lemma_spacing_bound(n as nat);
        lemma_spacing_bound(n as nat / 2);
    }
    if n < 0x20_0000_0000_0000 {
        1
    } else {
        2 * spacing_of(n / 2)
    }
}

fn nearest_double_of(n: u64) -> (r: u128)
    ensures
        r == nearest_double(n as nat),
        r <= n + 0x1000,
{
    let s: u64 = spacing_of(n);
    let q: u128 = half_even_of(n as u128, s as u128);
    assert(q * s <= n + s) by (nonlinear_arith)
        requires
            q <= n / s + 1,
            s > 0,
            q >= 0,
    ;
    q * (s as u128)
}

/// `n / unit` in decimal with one decimal place.
pub fn one_place_of(n: u64, unit: u64) -> (r: String)
    requires
        unit > 0,
    ensures
        r@ == one_place(n as nat, unit as nat),
{
    let t: u128 = half_even_of(nearest_double_of(n) * 10, unit as u128);
    let mut r: String = wide_decimal_of(t / 10);
    r.push('.');
    r.push((48 + (t % 10) as u8) as char);
    r
}

/// `n / unit` in decimal with two decimal places.
pub fn two_places_of(n: u64, unit: u64) -> (r: String)
    requires
        unit > 0,
    ensures
        r@ == two_places(n as nat, unit as nat),
{
    let t: u128 = half_even_of(nearest_double_of(n) * 100, unit as u128);
    let mut r: String = wide_decimal_of(t / 100);
    r.push('.');
    r.push((48 + ((t / 10) % 10) as u8) as char);
    r.push((48 + (t % 10) as u8) as char);
    r
}

/// A number with decimal places, without the zeros that say nothing.
pub fn shorten(s: &str) -> (r: String)
    ensures
        r@ == shortened(s@),
{
    let v: Vec<char> = chars_of(s);
    assert(v@.skip(0) =~= v@);
    let point: usize = position_of(v.as_slice(), 0, '.');
    proof {
        lemma_find_char(s@, '.');
    }
    if point == v.len() {
        return s.to_owned();
    }
    let mut end: usize = v.len();
    assert(v@.take(end as int) =~= s@);
    while v[end - 1] == '0'
        invariant
            v@ == s@,
            point < end <= v@.len(),
            v@[point as int] == '.',
            shortened(s@) == shortened(v@.take(end as int)),
        decreases end,
    {
        let ghost shown = v@.take(end as int);
        assert(shown[point as int] == '.');
        assert(shown.drop_last() =~= v@.take(end - 1));
        end -= 1;
    }
    let ghost shown = v@.take(end as int);
    assert(shown[point as int] == '.');
    if v[end - 1] == '.' {
        end -= 1;
        assert(v@.take(end as int) =~= shown.drop_last());
    }
    let r: String = string_of(v.as_slice(), 0, end);
    assert(r@ =~= v@.take(end as int));
    r
}

/// The unit that the world list shows `n` bytes in: its size and its name.
pub open spec fn list_unit(n: nat) -> (nat, Seq<char>) {
    if n < KB {
        (1, " B"@)
    } else if n < MB {
        (KB as nat, " KB"@)
    } else if n < GB {
        (MB as nat, " MB"@)
    } else if n < TB {
        (GB as nat, " GB"@)
    } else {
        (TB as nat, " TB"@)
    }
}

/// `n` bytes in the largest unit of which there is at least one, to one
/// decimal place.
pub open spec fn list_size(n: nat) -> Seq<char> {
    one_place(n, list_unit(n).0) + list_unit(n).1
}

/// `n` bytes as the world list shows them: `"1023.0 B"`, `"1.0 KB"`.
pub fn fmt_bytes(n: u64) -> (r: String)
    ensures
        r@ == list_size(n as nat),
{
    if n < KB {
        one_place_of(n, 1).concat(" B")
    } else if n < MB {
        one_place_of(n, KB).concat(" KB")
    } else if n < GB {
        one_place_of(n, MB).concat(" MB")
    } else if n < TB {
        one_place_of(n, GB).concat(" GB")
    } else {
        one_place_of(n, TB).concat(" TB")
    }
}

// ---------- Laws ----------

/// A whole number of units is shown with a zero behind the point.
pub proof fn law_whole_units_show_no_fraction(count: nat, unit: nat)
    requires
        unit > 0,
        count * unit < 0x20_0000_0000_0000,
    ensures
        one_place(count * unit, unit) == decimal(count).push('.').push('0'),
        two_places(count * unit, unit) == decimal(count).push('.').push('0').push('0'),
{
    let n = count * unit;
    assert(spacing(n) == 1);
    assert(half_even(n, 1) == n);
    assert(nearest_double(n) == n) by (nonlinear_arith)
        requires
            nearest_double(n) == half_even(n, 1) * 1,
            half_even(n, 1) == n,
    ;
    assert(n * 10 == (count * 10) * unit && n * 100 == (count * 100) * unit) by (nonlinear_arith)
        requires
            n == count * unit,
    ;
    lemma_fundamental_div_mod_converse((n * 10) as int, unit as int, (count * 10) as int, 0);
    lemma_fundamental_div_mod_converse((n * 100) as int, unit as int, (count * 100) as int, 0);
    assert(half_even(n * 10, unit) == count * 10);
    assert(half_even(n * 100, unit) == count * 100);
}

/// Shortening leaves the front of a number; what is gone is zeros, and a point
/// before them. A number without a point, or with another digit at its end, stays
/// as it is.
pub proof fn law_shortening_drops_only_zeros(s: Seq<char>)
    ensures
        shortened(s).is_prefix_of(s),
        forall|i: int|
            shortened(s).len() <= i < s.len() ==> #[trigger] s[i] == '0' || (s[i] == '.' && i
                == shortened(s).len()),
        s.contains('.') && s.last() != '0' && s.last() != '.' ==> shortened(s) == s,
        !s.contains('.') ==> shortened(s) == s,
    decreases s.len(),
{
    if s.contains('.') && s.last() == '0' {
        let t = s.drop_last();
        law_shortening_drops_only_zeros(t);
        let kept = shortened(s);
        assert(kept =~= s.subrange(0, kept.len() as int)) by {
            assert(kept == t.subrange(0, kept.len() as int));
        }
        assert forall|i: int| kept.len() <= i < s.len() implies #[trigger] s[i] == '0' || (s[i]
            == '.' && i == kept.len()) by {
            if i < t.len() {
                assert(s[i] == t[i]);
            }
        }
    } else if s.contains('.') && s.last() == '.' {
        assert(s.drop_last() =~= s.subrange(0, s.len() - 1));
    } else {
        assert(s =~= s.subrange(0, s.len() as int));
    }
}

/// A whole number of units is shown as that number, once it is shortened.
pub proof fn law_whole_units_shorten_to_the_number(count: nat, unit: nat)
    requires
        unit > 0,
        count * unit < 0x20_0000_0000_0000,
    ensures
        shortened(one_place(count * unit, unit)) == decimal(count),
        shortened(two_places(count * unit, unit)) == decimal(count),
{
    law_whole_units_show_no_fraction(count, unit);
    let d = decimal(count);
    let point = d.push('.');
    let one = point.push('0');
    let two = one.push('0');
    assert(point[d.len() as int] == '.' && one[d.len() as int] == '.' && two[d.len() as int]
        == '.');
    assert(two.drop_last() =~= one);
    assert(one.drop_last() =~= point);
    assert(point.drop_last() =~= d);
    assert(shortened(point) == d);
    assert(shortened(one) == shortened(point));
    assert(shortened(two) == shortened(one));
}

/// The world list's unit is never larger than what it shows, and only beyond
/// the largest unit are there more than 1023 of it.
pub proof fn law_unit_fits(n: nat)
    requires
        n > 0,
    ensures
        0 < list_unit(n).0 <= n,
        n < 1024 * TB ==> n < 1024 * list_unit(n).0,
{
}

} // verus!
