//! Text: digits and decimal numbers, prefixes and suffixes, and the order of strings.

use vstd::prelude::*;

verus! {

/// Whether `c` is one of the ten decimal digits.
pub open spec fn is_digit(c: char) -> bool {
    '0' <= c <= '9'
}

/// The number that the digit `c` stands for.
pub open spec fn digit_value(c: char) -> nat {
    (c as int - '0' as int) as nat
}

/// The digit that stands for `n`.
pub open spec fn digit_char(n: nat) -> char {
    ('0' as int + n) as char
}

pub open spec fn all_digits(s: Seq<char>) -> bool {
    forall|i: int| 0 <= i < s.len() ==> is_digit(#[trigger] s[i])
}

/// The number that a run of digits stands for.
pub open spec fn digits_value(s: Seq<char>) -> nat
    decreases s.len(),
{
    if s.len() == 0 {
        0
    } else {
        digits_value(s.drop_last()) * 10 + digit_value(s.last())
    }
}

/// `n` in decimal, without leading zeros.
pub open spec fn decimal(n: nat) -> Seq<char>
    decreases n,
{
    if n < 10 {
        seq![digit_char(n)]
    } else {
        decimal(n / 10).push(digit_char(n % 10))
    }
}

/// Whether a run of digits is how a number is written: no digit too many in front.
pub open spec fn is_decimal(s: Seq<char>) -> bool {
    &&& s.len() > 0
    &&& all_digits(s)
    &&& s[0] == '0' ==> s.len() == 1
}

/// A number in decimal is a run of digits without leading zeros that stands for that number.
pub proof fn lemma_decimal(n: nat)
    ensures
        is_decimal(decimal(n)),
        digits_value(decimal(n)) == n,
        n > 0 ==> decimal(n)[0] != '0',
    decreases n,
{
    reveal_with_fuel(digits_value, 2);
    if n < 10 {
        assert(decimal(n).drop_last() =~= Seq::<char>::empty());
        assert(decimal(n).last() == digit_char(n));
    } else {
        lemma_decimal(n / 10);
        assert(decimal(n).drop_last() =~= decimal(n / 10));
        assert(decimal(n).last() == digit_char(n % 10));
        assert(decimal(n)[0] == decimal(n / 10)[0]);
    }
}

/// A run of digits without leading zeros is how the number that it stands for is written.
pub proof fn lemma_decimal_of_value(s: Seq<char>)
    requires
        is_decimal(s),
    ensures
        decimal(digits_value(s)) == s,
        s.len() > 1 ==> digits_value(s) >= 10,
    decreases s.len(),
{
    reveal_with_fuel(digits_value, 2);
    reveal_with_fuel(decimal, 2);
    let front = s.drop_last();
    assert(is_digit(s[s.len() - 1]));
    if s.len() == 1 {
        assert(front =~= Seq::<char>::empty());
        assert(digits_value(s) == digit_value(s[0]));
        assert(decimal(digits_value(s)) =~= s);
    } else {
        assert(front[0] == s[0]);
        assert(is_decimal(front));
        lemma_decimal_of_value(front);
        if s.len() == 2 {
            assert(front.drop_last() =~= Seq::<char>::empty());
            assert(is_digit(s[0]));
            assert(digits_value(front) >= 1);
        }
        assert(decimal(digits_value(s)) =~= front.push(s.last()));
        assert(front.push(s.last()) =~= s);
    }
}

/// Two numbers that are written the same are the same.
pub proof fn lemma_decimal_injective(m: nat, n: nat)
    requires
        decimal(m) == decimal(n),
    ensures
        m == n,
{
    lemma_decimal(m);
    lemma_decimal(n);
}

/// The characters of a string, one by one.
pub fn chars_of(s: &str) -> (v: Vec<char>)
    ensures
        v@ == s@,
{
    let mut v: Vec<char> = Vec::new();
    let n: usize = s.unicode_len();
    let mut i: usize = 0;
    while i < n
        invariant
            n == s@.len(),
            i <= n,
            v@ == s@.take(i as int),
        decreases n - i,
    {
        v.push(s.get_char(i));
        i = i + 1;
        assert(v@ =~= s@.take(i as int));
    }
    assert(v@ =~= s@);
    v
}

/// The text of one digit.
fn digit_text(d: u8) -> (t: &'static str)
    requires
        d < 10,
    ensures
        t@ == seq![digit_char(d as nat)],
{
    proof {
        reveal_strlit("0");
        reveal_strlit("1");
        reveal_strlit("2");
        reveal_strlit("3");
        reveal_strlit("4");
        reveal_strlit("5");
        reveal_strlit("6");
        reveal_strlit("7");
        reveal_strlit("8");
        reveal_strlit("9");
    }
    let t = match d {
        0 => "0",
        1 => "1",
        2 => "2",
        3 => "3",
        4 => "4",
        5 => "5",
        6 => "6",
        7 => "7",
        8 => "8",
        _ => "9",
    };
    assert(t@ =~= seq![digit_char(d as nat)]);
    t
}

/// `n` in decimal.
pub fn u8_text(n: u8) -> (t: String)
    ensures
        t@ == decimal(n as nat),
{
    reveal_with_fuel(decimal, 3);
    let mut t: String = String::new();
    if n >= 100 {
        t.append(digit_text(n / 100));
    }
    if n >= 10 {
        t.append(digit_text((n / 10) % 10));
    }
    t.append(digit_text(n % 10));
    assert(t@ =~= decimal(n as nat));
    t
}

/// Whether two texts are the same.
pub fn same_text(s: &str, t: &str) -> (same: bool)
    ensures
        same == (s@ == t@),
{
    s.to_owned() == t.to_owned()
}

/// Whether `s` ends with `suffix`.
pub fn ends_with(s: &str, suffix: &str) -> (r: bool)
    ensures
        r == suffix@.is_suffix_of(s@),
{
    let n: usize = s.unicode_len();
    let k: usize = suffix.unicode_len();
    if k > n {
        return false;
    }
    same_text(s.substring_char(n - k, n), suffix)
}

/// Whether `s` begins with `prefix`.
pub fn starts_with(s: &str, prefix: &str) -> (r: bool)
    ensures
        r == prefix@.is_prefix_of(s@),
{
    let n: usize = s.unicode_len();
    let k: usize = prefix.unicode_len();
    if k > n {
        return false;
    }
    same_text(s.substring_char(0, k), prefix)
}

/// The order of strings: by their first characters that differ, and a string before its
/// continuations. In UTF-8 this is also the order of their bytes.
pub open spec fn lex_less(s: Seq<char>, t: Seq<char>) -> bool
    decreases s.len(),
{
    if t.len() == 0 {
        false
    } else if s.len() == 0 {
        true
    } else if s[0] != t[0] {
        s[0] < t[0]
    } else {
        lex_less(s.skip(1), t.skip(1))
    }
}

/// Of two strings that differ, exactly one comes first.
pub proof fn lemma_lex_total(s: Seq<char>, t: Seq<char>)
    ensures
        s == t ==> !lex_less(s, t),
        s != t ==> lex_less(s, t) != lex_less(t, s),
    decreases s.len(),
{
    if s.len() > 0 && t.len() > 0 {
        lemma_lex_total(s.skip(1), t.skip(1));
        if s[0] == t[0] && s.skip(1) == t.skip(1) {
            assert(s =~= seq![s[0]] + s.skip(1));
            assert(t =~= seq![t[0]] + t.skip(1));
        }
    } else if s.len() == 0 && t.len() == 0 {
        assert(s =~= t);
    }
}

/// Whether `s` comes before `t`.
pub fn text_less(s: &str, t: &str) -> (r: bool)
    ensures
        r == lex_less(s@, t@),
{
    let x: Vec<char> = chars_of(s);
    let y: Vec<char> = chars_of(t);
    let mut i: usize = 0;
    assert(x@.skip(0) =~= x@);
    assert(y@.skip(0) =~= y@);
    while i < x.len() && i < y.len() && x[i] == y[i]
        invariant
            i <= x@.len(),
            i <= y@.len(),
            lex_less(s@, t@) == lex_less(x@.skip(i as int), y@.skip(i as int)),
        decreases x@.len() - i,
    {
        proof {
            assert(x@.skip(i as int)[0] == x@[i as int]);
            assert(y@.skip(i as int)[0] == y@[i as int]);
            assert(x@.skip(i as int).skip(1) =~= x@.skip(i + 1));
            assert(y@.skip(i as int).skip(1) =~= y@.skip(i + 1));
        }
        i = i + 1;
    }
    if i == y.len() {
        false
    } else if i == x.len() {
        true
    } else {
        x[i] < y[i]
    }
}

/// In a run of digits each digit counts ten times the next one.
pub proof fn law_digits_value(s: Seq<char>, c: char)
    requires
        '0' <= c <= '9',
    ensures
        digits_value(Seq::empty()) == 0,
        digits_value(s.push(c)) == digits_value(s) * 10 + (c as int - '0' as int),
{
    assert(s.push(c).drop_last() =~= s);
}

/// A number in decimal is made of digits, the first of which is 0 only for the number 0, and that
/// stand for the number.
pub proof fn law_decimal_stands_for_number(n: nat, i: int)
    ensures
        decimal(n).len() > 0,
        0 <= i < decimal(n).len() ==> '0' <= decimal(n)[i] <= '9',
        n > 0 ==> decimal(n)[0] != '0',
        digits_value(decimal(n)) == n,
        n == 0 ==> decimal(n) == seq!['0'],
{
    lemma_decimal(n);
    if 0 <= i < decimal(n).len() {
        assert(is_digit(decimal(n)[i]));
    }
    assert('0' as int + 0 == '0' as int);
}

/// Two texts are ordered by the first character in which they differ, and a text comes before
/// everything that continues it; never both ways.
pub proof fn law_first_difference_decides(s: Seq<char>, t: Seq<char>, k: int)
    requires
        0 <= k <= s.len(),
        k <= t.len(),
        forall|i: int| 0 <= i < k ==> s[i] == t[i],
    ensures
        k < s.len() && k < t.len() && s[k] < t[k] ==> lex_less(s, t) && !lex_less(t, s),
        k == s.len() && k < t.len() ==> lex_less(s, t) && !lex_less(t, s),
        k == s.len() && k == t.len() ==> !lex_less(s, t) && !lex_less(t, s),
    decreases k,
{
    if k > 0 {
        assert(s[0] == t[0]);
        assert forall|i: int| 0 <= i < k - 1 implies s.skip(1)[i] == t.skip(1)[i] by {
            assert(s[i + 1] == t[i + 1]);
        }
        law_first_difference_decides(s.skip(1), t.skip(1), k - 1);
    }
}

} // verus!
