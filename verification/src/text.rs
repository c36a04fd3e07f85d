//! Character-level text operations with exact contracts over `Seq<char>`.

use vstd::prelude::*;
use vstd::string::*;

verus! {

/// `String::push` of std: the character goes to the end of the string.
pub assume_specification[ String::push ](s: &mut String, c: char)
    ensures
        final(s)@ == old(s)@.push(c),
;

// ---------- Characters ----------

/// Unicode's `White_Space` property.
pub open spec fn is_space(c: char) -> bool {
    ||| '\u{9}' <= c <= '\u{d}'
    ||| c == ' '
    ||| c == '\u{85}'
    ||| c == '\u{a0}'
    ||| c == '\u{1680}'
    ||| '\u{2000}' <= c <= '\u{200a}'
    ||| c == '\u{2028}'
    ||| c == '\u{2029}'
    ||| c == '\u{202f}'
    ||| c == '\u{205f}'
    ||| c == '\u{3000}'
}

/// Whether `c` has Unicode's `White_Space` property.
pub fn is_whitespace(c: char) -> (r: bool)
    ensures
        r == is_space(c),
{
    ('\u{9}' <= c && c <= '\u{d}') || c == ' ' || c == '\u{85}' || c == '\u{a0}' || c == '\u{1680}'
        || ('\u{2000}' <= c && c <= '\u{200a}') || c == '\u{2028}' || c == '\u{2029}' || c
        == '\u{202f}' || c == '\u{205f}' || c == '\u{3000}'
}

/// ASCII letters and digits.
pub open spec fn is_alnum(c: char) -> bool {
    ||| '0' <= c <= '9'
    ||| 'A' <= c <= 'Z'
    ||| 'a' <= c <= 'z'
}

/// `c` with an ASCII capital turned into its small letter.
pub open spec fn lower_char(c: char) -> char {
    if 'A' <= c <= 'Z' {
        (c as u8 + 32) as char
    } else {
        c
    }
}

/// `s` with every ASCII capital turned into its small letter.
pub open spec fn lower(s: Seq<char>) -> Seq<char> {
    s.map_values(|c: char| lower_char(c))
}

// ---------- Strings and character vectors ----------

/// The characters of `s`.
pub fn chars_of(s: &str) -> (v: Vec<char>)
    ensures
        v@ == s@,
{
    let mut v: Vec<char> = Vec::new();
    for c in it: s.chars()
        invariant
            it.seq() == s@,
            v@ == s@.take(it.index() as int),
    {
        v.push(c);
        assert(s@.take(it.index() + 1) =~= s@.take(it.index() as int).push(c));
    }
    assert(s@.take(s@.len() as int) =~= s@);
    v
}

/// The string of the characters `from..to` of `v`.
pub fn string_of(v: &[char], from: usize, to: usize) -> (s: String)
    requires
        from <= to <= v@.len(),
    ensures
        s@ == v@.subrange(from as int, to as int),
{
    let mut s: String = String::new();
    let mut i: usize = from;
    while i < to
        invariant
            from <= i <= to <= v@.len(),
            s@ == v@.subrange(from as int, i as int),
        decreases to - i,
    {
        s.push(v[i]);
        i += 1;
        assert(v@.subrange(from as int, i as int) =~= v@.subrange(from as int, i - 1).push(
            v@[i - 1],
        ));
    }
    s
}

/// Whether two strings hold the same characters.
pub fn same(a: &str, b: &str) -> (r: bool)
    ensures
        r == (a@ == b@),
{
    a.to_owned() == b.to_owned()
}

/// The views of a sequence of strings.
pub open spec fn views(v: Seq<String>) -> Seq<Seq<char>> {
    v.map_values(|s: String| s@)
}

// ---------- Trimming ----------

/// `s` without the white space at its front.
pub open spec fn trim_front(s: Seq<char>) -> Seq<char>
    decreases s.len(),
{
    if s.len() > 0 && is_space(s.first()) {
        trim_front(s.drop_first())
    } else {
        s
    }
}

/// `s` without the white space at its end.
pub open spec fn trim_back(s: Seq<char>) -> Seq<char>
    decreases s.len(),
{
    if s.len() > 0 && is_space(s.last()) {
        trim_back(s.drop_last())
    } else {
        s
    }
}

/// `s` without the white space at either end.
pub open spec fn trimmed(s: Seq<char>) -> Seq<char> {
    trim_back(trim_front(s))
}

/// The number of white space characters at the front of `v`.
pub fn leading_space(v: &[char]) -> (n: usize)
    ensures
        n <= v@.len(),
        trim_front(v@) == v@.skip(n as int),
{
    let mut n: usize = 0;
    assert(v@.skip(0) =~= v@);
    while n < v.len() && is_whitespace(v[n])
        invariant
            n <= v@.len(),
            trim_front(v@) == trim_front(v@.skip(n as int)),
        decreases v@.len() - n,
    {
        assert(v@.skip(n as int).drop_first() =~= v@.skip(n + 1));
        n += 1;
    }
    n
}

/// The characters of `v` without the white space at either end.
pub fn trim_chars(v: &[char]) -> (s: String)
    ensures
        s@ == trimmed(v@),
{
    let from: usize = leading_space(v);
    let mut to: usize = v.len();
    assert(v@.skip(from as int) =~= v@.subrange(from as int, to as int));
    while from < to && is_whitespace(v[to - 1])
        invariant
            from <= to <= v@.len(),
            trim_back(v@.skip(from as int)) == trim_back(v@.subrange(from as int, to as int)),
        decreases to,
    {
        assert(v@.subrange(from as int, to as int).drop_last() =~= v@.subrange(
            from as int,
            to - 1,
        ));
        to -= 1;
    }
    string_of(v, from, to)
}

/// `s` without the white space at either end.
pub fn trim(s: &str) -> (r: String)
    ensures
        r@ == trimmed(s@),
{
    let v: Vec<char> = chars_of(s);
    trim_chars(v.as_slice())
}

// ---------- Searching ----------

/// The place of the first `c` in `s`, or the length of `s` where there is none.
pub open spec fn find_char(s: Seq<char>, c: char) -> int
    decreases s.len(),
{
    if s.len() == 0 {
        0
    } else if s.first() == c {
        0
    } else {
        1 + find_char(s.drop_first(), c)
    }
}

/// What `find_char` finds: the first place that holds `c`.
pub proof fn lemma_find_char(s: Seq<char>, c: char)
    ensures
        0 <= find_char(s, c) <= s.len(),
        find_char(s, c) < s.len() ==> s[find_char(s, c)] == c,
        forall|i: int| 0 <= i < find_char(s, c) ==> s[i] != c,
    decreases s.len(),
{
    if s.len() > 0 && s.first() != c {
        lemma_find_char(s.drop_first(), c);
        assert forall|i: int| 0 <= i < find_char(s, c) implies s[i] != c by {
            if i > 0 {
                assert(s[i] == s.drop_first()[i - 1]);
            }
        }
    }
}

/// `find_char` is determined by what it finds.
pub proof fn lemma_find_char_unique(s: Seq<char>, c: char, n: int)
    requires
        0 <= n <= s.len(),
        n < s.len() ==> s[n] == c,
        forall|i: int| 0 <= i < n ==> s[i] != c,
    ensures
        find_char(s, c) == n,
{
    lemma_find_char(s, c);
    let m = find_char(s, c);
    if m < n {
        assert(s[m] == c);
    } else if n < m {
        assert(s[n] == c);
    }
}

/// The place of the first `c` at or after `from`, or the length of `v`.
pub fn position_of(v: &[char], from: usize, c: char) -> (n: usize)
    requires
        from <= v@.len(),
    ensures
        from <= n <= v@.len(),
        n == from + find_char(v@.skip(from as int), c),
{
    let mut n: usize = from;
    while n < v.len() && v[n] != c
        invariant
            from <= n <= v@.len(),
            forall|i: int| from <= i < n ==> v@[i] != c,
        decreases v@.len() - n,
    {
        n += 1;
    }
    proof {
        let s = v@.skip(from as int);
        assert forall|i: int| 0 <= i < n - from implies s[i] != c by {
            assert(s[i] == v@[from + i]);
        }
        lemma_find_char_unique(s, c, n - from);
    }
    n
}

/// `p` occurs in `s`.
pub open spec fn contains(s: Seq<char>, p: Seq<char>) -> bool {
    exists|i: int| #[trigger] occurs_at(s, p, i)
}

/// `p` occurs in `s` at place `i`.
pub open spec fn occurs_at(s: Seq<char>, p: Seq<char>, i: int) -> bool {
    0 <= i && i + p.len() <= s.len() && s.subrange(i, i + p.len()) == p
}

/// Whether `p` stands in `v` at place `i`.
fn matches_at(v: &[char], p: &[char], i: usize) -> (r: bool)
    ensures
        r == occurs_at(v@, p@, i as int),
{
    if i > v.len() || p.len() > v.len() - i {
        return false;
    }
    let mut k: usize = 0;
    while k < p.len()
        invariant
            k <= p@.len(),
            i + p@.len() <= v.len(),
            forall|j: int| 0 <= j < k ==> v@[i + j] == p@[j],
        decreases p@.len() - k,
    {
        if v[i + k] != p[k] {
            assert(v@.subrange(i as int, i + p@.len())[k as int] != p@[k as int]);
            return false;
        }
        k += 1;
    }
    assert(v@.subrange(i as int, i + p@.len()) =~= p@);
    true
}

/// Whether `p` occurs in `v`.
pub fn has_part(v: &[char], p: &str) -> (r: bool)
    ensures
        r == contains(v@, p@),
{
    let part: Vec<char> = chars_of(p);
    let mut i: usize = 0;
    while i < v.len()
        invariant
            i <= v@.len(),
            part@ == p@,
            forall|j: int| 0 <= j < i ==> !#[trigger] occurs_at(v@, p@, j),
        decreases v@.len() - i,
    {
        if matches_at(v, part.as_slice(), i) {
            return true;
        }
        i += 1;
    }
    matches_at(v, part.as_slice(), i)
}

/// Whether `v` ends with `p`.
pub fn has_suffix(v: &[char], p: &str) -> (r: bool)
    ensures
        r == p@.is_suffix_of(v@),
{
    let p: Vec<char> = chars_of(p);
    if p.len() > v.len() {
        return false;
    }
    matches_at(v, p.as_slice(), v.len() - p.len())
}

/// `v` with every ASCII capital turned into its small letter.
pub fn lower_chars(v: &[char]) -> (r: Vec<char>)
    ensures
        r@ == lower(v@),
{
    let mut r: Vec<char> = Vec::new();
    let mut i: usize = 0;
    while i < v.len()
        invariant
            i <= v@.len(),
            r@ == lower(v@.take(i as int)),
        decreases v@.len() - i,
    {
        let c: char = v[i];
        if 'A' <= c && c <= 'Z' {
            r.push((c as u8 + 32) as char);
        } else {
            r.push(c);
        }
        i += 1;
        assert(r@ =~= lower(v@.take(i as int)));
    }
    assert(v@.take(v@.len() as int) =~= v@);
    r
}

// ---------- Lines ----------

/// `s` without one carriage return at its end.
pub open spec fn strip_return(s: Seq<char>) -> Seq<char> {
    if s.len() > 0 && s.last() == '\r' {
        s.drop_last()
    } else {
        s
    }
}

/// The lines of `s`: each ends at a line feed, of which a carriage return
/// before it is part; what follows the last line feed is a line if it is not
/// empty, and keeps a carriage return at its end.
pub open spec fn lines(s: Seq<char>) -> Seq<Seq<char>>
    decreases s.len(),
    via lines_decreases
{
    if s.len() == 0 {
        Seq::empty()
    } else {
        let n = find_char(s, '\n');
        if n == s.len() {
            seq![s]
        } else {
            seq![strip_return(s.take(n))] + lines(s.skip(n + 1))
        }
    }
}

#[via_fn]
proof fn lines_decreases(s: Seq<char>) {
    lemma_find_char(s, '\n');
}

/// The lines of `s`.
pub fn lines_of(s: &str) -> (r: Vec<String>)
    ensures
        views(r@) == lines(s@),
{
    let v: Vec<char> = chars_of(s);
    let mut r: Vec<String> = Vec::new();
    let mut i: usize = 0;
    assert(v@.skip(0) =~= v@);
    assert(views(r@) + lines(v@) =~= lines(v@));
    while i < v.len()
        invariant
            i <= v@.len(),
            v@ == s@,
            lines(s@) == views(r@) + lines(v@.skip(i as int)),
        decreases v@.len() - i,
    {
        let ghost rest = v@.skip(i as int);
        let n: usize = position_of(v.as_slice(), i, '\n');
        let ghost before = views(r@);
        if n == v.len() {
            r.push(string_of(v.as_slice(), i, n));
            assert(v@.subrange(i as int, n as int) =~= rest);
            assert(views(r@) =~= before.push(rest));
            assert(lines(rest) =~= seq![rest]);
            i = n;
            assert(v@.skip(i as int) =~= Seq::empty());
            assert(lines(s@) =~= views(r@) + lines(v@.skip(i as int)));
        } else {
            let mut to: usize = n;
            assert(v@.subrange(i as int, n as int) =~= rest.take(n - i));
            if i < n && v[n - 1] == '\r' {
                to = n - 1;
                assert(v@.subrange(i as int, to as int) =~= rest.take(n - i).drop_last());
            }
            r.push(string_of(v.as_slice(), i, to));
            assert(views(r@) =~= before.push(strip_return(rest.take(n - i))));
            assert(rest.skip(n - i + 1) =~= v@.skip(n + 1));
            i = n + 1;
            assert(lines(s@) =~= views(r@) + lines(v@.skip(i as int)));
        }
    }
    assert(v@.skip(i as int) =~= Seq::empty());
    assert(views(r@) + Seq::empty() =~= views(r@));
    r
}

/// The strings of `parts` with `sep` between each two.
pub open spec fn joined(parts: Seq<Seq<char>>, sep: Seq<char>) -> Seq<char>
    decreases parts.len(),
{
    if parts.len() == 0 {
        Seq::empty()
    } else if parts.len() == 1 {
        parts[0]
    } else {
        joined(parts.drop_last(), sep) + sep + parts.last()
    }
}

/// The strings of `parts` with `sep` between each two.
pub fn join(parts: &[String], sep: &str) -> (r: String)
    ensures
        r@ == joined(views(parts@), sep@),
{
    let mut r: String = String::new();
    let mut i: usize = 0;
    while i < parts.len()
        invariant
            i <= parts@.len(),
            r@ == joined(views(parts@).take(i as int), sep@),
        decreases parts@.len() - i,
    {
        if i > 0 {
            r.append(sep);
        }
        r.append(parts[i].as_str());
        i += 1;
        let ghost now = views(parts@).take(i as int);
        assert(now.drop_last() =~= views(parts@).take(i - 1));
        assert(now.last() == parts@[i - 1]@);
        assert(r@ =~= joined(now, sep@));
    }
    assert(views(parts@).take(parts@.len() as int) =~= views(parts@));
    r
}

// ---------- Numbers ----------

/// The character of a digit below ten.
pub open spec fn digit_char(d: nat) -> char {
    (48 + d) as char
}

/// `n` in decimal, without leading zeros.
pub open spec fn decimal(n: nat) -> Seq<char>
    decreases n,
{
    if n < 10 {
        seq![digit_char(n)]
    } else {
        decimal(n / 10).push(digit_char(n % 10))
    }
}

/// `n` in decimal.
pub fn decimal_of(n: u64) -> (s: String)
    ensures
        s@ == decimal(n as nat),
{
    wide_decimal_of(n as u128)
}

/// `n` in decimal.
pub fn wide_decimal_of(n: u128) -> (s: String)
    ensures
        s@ == decimal(n as nat),
    decreases n,
{
    let mut s: String = if n < 10 {
        String::new()
    } else {
        wide_decimal_of(n / 10)
    };
    s.push((48 + (n % 10) as u8) as char);
    assert(s@ =~= decimal(n as nat));
    s
}

/// `c` is a decimal digit.
pub open spec fn is_digit(c: char) -> bool {
    '0' <= c <= '9'
}

/// Every character of `s` is a decimal digit.
pub open spec fn all_digits(s: Seq<char>) -> bool {
    forall|i: int| 0 <= i < s.len() ==> is_digit(#[trigger] s[i])
}

/// The number that a string of decimal digits stands for.
pub open spec fn digits_value(s: Seq<char>) -> nat
    decreases s.len(),
{
    if s.len() == 0 {
        0
    } else {
        (digits_value(s.drop_last()) * 10 + (s.last() as u32 - 48)) as nat
    }
}

/// `s` as an unsigned number: digits, after one plus sign or none, that fit in
/// 64 bits.
pub open spec fn number(s: Seq<char>) -> Option<u64> {
    let d = if s.len() > 0 && s.first() == '+' {
        s.drop_first()
    } else {
        s
    };
    if d.len() > 0 && all_digits(d) && digits_value(d) <= u64::MAX {
        Some(digits_value(d) as u64)
    } else {
        None
    }
}

/// More digits never make the number smaller.
proof fn lemma_digits_value_grows(s: Seq<char>, n: int)
    requires
        0 <= n <= s.len(),
        all_digits(s),
    ensures
        digits_value(s.take(n)) <= digits_value(s),
    decreases s.len(),
{
    if n == s.len() {
        assert(s.take(n) =~= s);
    } else {
        let t = s.drop_last();
        assert(is_digit(s[s.len() - 1]));
        lemma_digits_value_grows(t, n);
        assert(t.take(n) =~= s.take(n));
    }
}

/// `s` as an unsigned number, where it is one that fits in 64 bits.
pub fn parse_number(s: &str) -> (r: Option<u64>)
    ensures
        r == number(s@),
{
    let v: Vec<char> = chars_of(s);
    let from: usize = if v.len() > 0 && v[0] == '+' {
        1
    } else {
        0
    };
    let ghost d = v@.skip(from as int);
    assert(from == 1 ==> d =~= s@.drop_first());
    assert(from == 0 ==> d =~= s@);
    if from == v.len() {
        return None;
    }
    let mut i: usize = from;
    let mut n: u64 = 0;
    while i < v.len()
        invariant
            from <= i <= v@.len(),
            v@ == s@,
            from == if s@.len() > 0 && s@.first() == '+' { 1int } else { 0int },
            d == if from == 1 { s@.drop_first() } else { s@ },
            d == v@.skip(from as int),
            forall|j: int| 0 <= j < i - from ==> is_digit(#[trigger] d[j]),
            n == digits_value(d.take(i - from)),
        decreases v@.len() - i,
    {
        let c: char = v[i];
        assert(d[i - from] == c);
        if c < '0' || '9' < c {
            assert(!all_digits(d));
            return None;
        }
        let k: u64 = (c as u32 - 48) as u64;
        let ghost next = d.take(i - from + 1);
        assert(next.drop_last() =~= d.take(i - from));
        if n > (u64::MAX - k) / 10 {
            proof {
                if all_digits(d) {
                    lemma_digits_value_grows(d, i - from + 1);
                }
            }
            return None;
        }
        n = n * 10 + k;
        i += 1;
    }
    assert(d.take(i - from) =~= d);
    Some(n)
}

/// A number in decimal is digits, and these stand for it.
pub proof fn lemma_decimal_digits(n: nat)
    ensures
        decimal(n).len() > 0,
        all_digits(decimal(n)),
        digits_value(decimal(n)) == n,
    decreases n,
{
    if n < 10 {
        let d = decimal(n);
        assert(d.drop_last() =~= Seq::<char>::empty());
        assert(digits_value(d.drop_last()) == 0);
        assert(d.last() as u32 == 48 + n);
    } else {
        lemma_decimal_digits(n / 10);
        let d = decimal(n);
        assert(d.drop_last() =~= decimal(n / 10));
        assert(d.last() as u32 == 48 + n % 10);
        assert forall|i: int| 0 <= i < d.len() implies is_digit(#[trigger] d[i]) by {
            if i < d.len() - 1 {
                assert(d[i] == decimal(n / 10)[i]);
            }
        }
    }
}

/// A number that is written in decimal is read back as it was.
pub proof fn law_decimal_reads_back(n: u64)
    ensures
        number(decimal(n as nat)) == Some(n),
{
    lemma_decimal_digits(n as nat);
    let d = decimal(n as nat);
    assert(is_digit(d[0]));
}

/// Different numbers are written differently.
pub proof fn law_decimal_tells_apart(a: nat, b: nat)
    ensures
        decimal(a) == decimal(b) ==> a == b,
{
    lemma_decimal_digits(a);
    lemma_decimal_digits(b);
}

// ---------- Padding ----------

/// `n` blanks.
pub open spec fn blanks(n: nat) -> Seq<char> {
    Seq::new(n, |i: int| ' ')
}

/// `s` with blanks after it up to `width` characters.
pub open spec fn padded_right(s: Seq<char>, width: nat) -> Seq<char> {
    s + blanks(if s.len() < width { (width - s.len()) as nat } else { 0 })
}

/// `s` with blanks before it up to `width` characters.
pub open spec fn padded_left(s: Seq<char>, width: nat) -> Seq<char> {
    blanks(if s.len() < width { (width - s.len()) as nat } else { 0 }) + s
}

/// A string of `n` blanks.
fn blanks_of(n: usize) -> (s: String)
    ensures
        s@ == blanks(n as nat),
{
    let mut s: String = String::new();
    let mut i: usize = 0;
    while i < n
        invariant
            i <= n,
            s@ == blanks(i as nat),
        decreases n - i,
    {
        s.push(' ');
        i += 1;
        assert(s@ =~= blanks(i as nat));
    }
    s
}

/// The number of blanks that bring `s` up to `width` characters.
fn gap(s: &str, width: usize) -> (n: usize)
    ensures
        n == if s@.len() < width { width - s@.len() } else { 0 },
{
    let len: usize = s.unicode_len();
    if len < width {
        width - len
    } else {
        0
    }
}

/// `s` with blanks after it up to `width` characters.
pub fn pad_right(s: &str, width: usize) -> (r: String)
    ensures
        r@ == padded_right(s@, width as nat),
{
    s.to_owned().concat(blanks_of(gap(s, width)).as_str())
}

/// `s` with blanks before it up to `width` characters.
pub fn pad_left(s: &str, width: usize) -> (r: String)
    ensures
        r@ == padded_left(s@, width as nat),
{
    blanks_of(gap(s, width)).concat(s)
}

} // verus!
