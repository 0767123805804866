//! Small pieces of text handling shared by the other modules.
use vstd::prelude::*;
use vstd::string::StringExecFns;

verus! {

/// A text as the contracts see it: its characters.
pub type Text = Seq<char>;

/// The characters of an optional text.
pub open spec fn opt_text(o: Option<String>) -> Option<Text> {
    match o {
        Some(s) => Some(s@),
        None => None,
    }
}

/// The characters of each text of a list.
pub open spec fn texts(v: Seq<String>) -> Seq<Text> {
    v.map_values(|s: String| s@)
}

/// `str`'s `==`: two texts are equal when they hold the same characters.
#[verifier::external_body]
pub(crate) fn str_eq(a: &str, b: &str) -> (r: bool)
    ensures
        r == (a@ == b@),
{
    a == b
}

/// Whether `a` comes strictly before `b`: characters are compared from the
/// left by their code points, and a proper prefix comes first.
pub open spec fn text_lt(a: Text, b: Text) -> bool
    decreases a.len(),
{
    if b.len() == 0 {
        false
    } else if a.len() == 0 {
        true
    } else if a[0] == b[0] {
        text_lt(a.drop_first(), b.drop_first())
    } else {
        a[0] < b[0]
    }
}

/// `a` comes before `b` or is the same text.
pub open spec fn text_le(a: Text, b: Text) -> bool {
    !text_lt(b, a)
}

/// `str`'s `<`: texts are ordered lexicographically by their code points.
#[verifier::external_body]
pub(crate) fn str_lt(a: &str, b: &str) -> (r: bool)
    ensures
        r == text_lt(a@, b@),
{
    a < b
}

/// `text_lt` is irreflexive.
pub proof fn text_lt_irreflexive(a: Text)
    ensures
        !text_lt(a, a),
    decreases a.len(),
{
    if a.len() > 0 {
        text_lt_irreflexive(a.drop_first());
    }
}

/// `text_lt` is transitive.
pub proof fn text_lt_transitive(a: Text, b: Text, c: Text)
    requires
        text_lt(a, b),
        text_lt(b, c),
    ensures
        text_lt(a, c),
    decreases a.len(),
{
    if a.len() > 0 && a[0] == b[0] && b[0] == c[0] {
        text_lt_transitive(a.drop_first(), b.drop_first(), c.drop_first());
    }
}

/// Two texts of which neither comes before the other are the same.
pub proof fn text_lt_total(a: Text, b: Text)
    ensures
        text_lt(a, b) || text_lt(b, a) || a == b,
    decreases a.len(),
{
    if a.len() == 0 || b.len() == 0 {
        assert(a.len() == 0 && b.len() == 0 ==> a =~= b);
    } else if a[0] == b[0] {
        text_lt_total(a.drop_first(), b.drop_first());
        if a.drop_first() == b.drop_first() {
            assert(a =~= seq![a[0]] + a.drop_first());
            assert(b =~= seq![b[0]] + b.drop_first());
        }
    }
}

/// `text_le` is transitive.
pub proof fn text_le_transitive(a: Text, b: Text, c: Text)
    requires
        text_le(a, b),
        text_le(b, c),
    ensures
        text_le(a, c),
{
    if text_lt(c, a) {
        text_lt_total(a, b);
        text_lt_total(b, c);
        if text_lt(a, b) {
            text_lt_transitive(c, a, b);
        }
    }
}

/// The digit of a number below ten.
pub open spec fn digit(d: nat) -> char {
    if d == 0 {
        '0'
    } else if d == 1 {
        '1'
    } else if d == 2 {
        '2'
    } else if d == 3 {
        '3'
    } else if d == 4 {
        '4'
    } else if d == 5 {
        '5'
    } else if d == 6 {
        '6'
    } else if d == 7 {
        '7'
    } else if d == 8 {
        '8'
    } else {
        '9'
    }
}

/// A number in decimal, without leading zeros.
pub open spec fn dec(n: nat) -> Text
    decreases n,
{
    if n < 10 {
        seq![digit(n)]
    } else {
        dec(n / 10).push(digit(n % 10))
    }
}

fn digit_text(d: u64) -> (s: String)
    requires
        d < 10,
    ensures
        s@ == seq![digit(d as nat)],
{
    let lit = if d == 0 {
        "0"
    } else if d == 1 {
        "1"
    } else if d == 2 {
        "2"
    } else if d == 3 {
        "3"
    } else if d == 4 {
        "4"
    } else if d == 5 {
        "5"
    } else if d == 6 {
        "6"
    } else if d == 7 {
        "7"
    } else if d == 8 {
        "8"
    } else {
        "9"
    };
    proof {
        reveal_strlit("0");
        reveal_strlit("1");
        reveal_strlit("2");
        reveal_strlit("3");
        reveal_strlit("4");
        reveal_strlit("5");
        reveal_strlit("6");
        reveal_strlit("7");
        reveal_strlit("8");
        reveal_strlit("9");
        assert(lit@ =~= seq![digit(d as nat)]);
    }
    lit.to_owned()
}

/// A number written out in decimal.
pub fn dec_u64(n: u64) -> (s: String)
    ensures
        s@ == dec(n as nat),
    decreases n,
{
    if n < 10 {
        digit_text(n)
    } else {
        let mut s = dec_u64(n / 10);
        let d = digit_text(n % 10);
        s.append(d.as_str());
        proof {
            assert(s@ =~= dec(n as nat));
        }
        s
    }
}

/// A number of either sign written out in decimal.
pub open spec fn int_text(n: int) -> Text {
    if n < 0 {
        "-"@ + dec((-n) as nat)
    } else {
        dec(n as nat)
    }
}

/// A number of either sign written out in decimal.
pub fn dec_i64(n: i64) -> (s: String)
    ensures
        s@ == int_text(n as int),
{
    if n < 0 {
        let mut s = "-".to_owned();
        let magnitude: i128 = -(n as i128);
        s.append(dec_u64(magnitude as u64).as_str());
        s
    } else {
        dec_u64(n as u64)
    }
}

/// Two numbers with the same digits are the same number.
pub proof fn dec_injective(a: nat, b: nat)
    requires
        dec(a) == dec(b),
    ensures
        a == b,
    decreases a,
{
    dec_nonempty(a);
    dec_nonempty(b);
    if a < 10 && b < 10 {
        assert(dec(a)[0] == digit(a));
        assert(dec(b)[0] == digit(b));
    } else if a < 10 {
        dec_nonempty(b / 10);
        assert(dec(a).len() == 1);
        assert(dec(b).len() >= 2);
    } else if b < 10 {
        dec_nonempty(a / 10);
        assert(dec(b).len() == 1);
        assert(dec(a).len() >= 2);
    } else {
        assert(dec(a).last() == digit(a % 10));
        assert(dec(b).last() == digit(b % 10));
        assert(dec(a).drop_last() =~= dec(a / 10));
        assert(dec(b).drop_last() =~= dec(b / 10));
        dec_injective(a / 10, b / 10);
    }
}

/// A number has at least one digit.
pub proof fn dec_nonempty(n: nat)
    ensures
        dec(n).len() >= 1,
{
}

/// The texts of a list one after another, with a separator between two.
pub open spec fn joined(parts: Seq<Text>, sep: Text) -> Text
    decreases parts.len(),
{
    if parts.len() == 0 {
        Seq::empty()
    } else if parts.len() == 1 {
        parts[0]
    } else {
        joined(parts.drop_last(), sep) + sep + parts.last()
    }
}

/// The texts of a list one after another, with a separator between two.
pub fn join(parts: &Vec<String>, sep: &str) -> (s: String)
    ensures
        s@ == joined(texts(parts@), sep@),
{
    let mut s = String::new();
    let mut i: usize = 0;
    while i < parts.len()
        invariant
            i <= parts.len(),
            s@ == joined(texts(parts@.take(i as int)), sep@),
        decreases parts.len() - i,
    {
        if i > 0 {
            s.append(sep);
        }
        s.append(parts[i].as_str());
        proof {
            let now = texts(parts@.take(i + 1));
            assert(now.drop_last() =~= texts(parts@.take(i as int)));
            assert(now.last() == parts@[i as int]@);
            if i == 0 {
                assert(s@ =~= now[0]);
            }
        }
        i += 1;
    }
    proof {
        assert(parts@.take(i as int) =~= parts@);
    }
    s
}

/// A copy of an optional text.
pub fn copy_opt(o: &Option<String>) -> (r: Option<String>)
    ensures
        r == *o,
{
    match o {
        Some(s) => Some(s.clone()),
        None => None,
    }
}

/// Whether an optional text is present and is `b`.
pub fn opt_is(o: &Option<String>, b: &str) -> (r: bool)
    ensures
        r == (opt_text(*o) == Some(b@)),
{
    match o {
        Some(s) => str_eq(s.as_str(), b),
        None => false,
    }
}

/// A decimal digit.
pub open spec fn is_digit(c: char) -> bool {
    '0' <= c <= '9'
}

/// The number that a run of digits stands for.
pub open spec fn digits_value(s: Text) -> nat
    decreases s.len(),
{
    if s.len() == 0 {
        0
    } else {
        digits_value(s.drop_last()) * 10 + ((s.last() as u32) - ('0' as u32)) as nat
    }
}

/// A text without one leading plus sign.
pub open spec fn unsigned(s: Text) -> Text {
    if s.len() > 0 && s[0] == '+' {
        s.drop_first()
    } else {
        s
    }
}

/// The number that a text is: digits alone, with at most a plus sign before
/// them, that fit.
pub open spec fn number_of(s: Text) -> Option<u64> {
    let d = unsigned(s);
    if d.len() > 0 && (forall|i: int| 0 <= i < d.len() ==> is_digit(#[trigger] d[i]))
        && digits_value(d) <= u64::MAX {
        Some(digits_value(d) as u64)
    } else {
        None
    }
}

proof fn more_digits_are_no_less(s: Text, n: int)
    requires
        0 <= n <= s.len(),
    ensures
        digits_value(s.take(n)) <= digits_value(s),
    decreases s.len() - n,
{
    if n < s.len() {
        more_digits_are_no_less(s, n + 1);
        assert(s.take(n + 1).drop_last() =~= s.take(n));
    } else {
        assert(s.take(n) =~= s);
    }
}

/// The number that a text is.
pub(crate) fn parse_u64(s: &str) -> (r: Option<u64>)
    ensures
        r == number_of(s@),
{
    let len: usize = s.unicode_len();
    let start: usize = if len > 0 && s.get_char(0) == '+' {
        1
    } else {
        0
    };
    let ghost d = unsigned(s@);
    proof {
        assert(d =~= s@.skip(start as int));
    }
    if start == len {
        return None;
    }
    let mut value: u64 = 0;
    let mut i: usize = start;
    while i < len
        invariant
            start <= i <= len,
            len == s@.len(),
            start < len,
            d == s@.skip(start as int),
            d == unsigned(s@),
            forall|k: int| 0 <= k < i - start ==> is_digit(#[trigger] d[k]),
            value == digits_value(d.take(i - start)),
        decreases len - i,
    {
        let c = s.get_char(i);
        let ghost k = i - start;
        proof {
            assert(d[k] == c);
            assert(d.take(k + 1).drop_last() =~= d.take(k));
            assert(d.take(k + 1).last() == c);
            more_digits_are_no_less(d, k + 1);
        }
        if !('0' <= c && c <= '9') {
            return None;
        }
        let more: u64 = c as u64 - '0' as u64;
        if value > (u64::MAX - more) / 10 {
            return None;
        }
        value = value * 10 + more;
        i += 1;
    }
    proof {
        assert(d.take(len - start) =~= d);
    }
    Some(value)
}

/// A number that is written out and read again is the same number.
pub proof fn law_written_numbers_are_read_back(n: u64)
    ensures
        number_of(dec(n as nat)) == Some(n),
{
    dec_reads_back(n as nat);
    dec_nonempty(n as nat);
    assert(is_digit(dec(n as nat)[0]));
    assert(unsigned(dec(n as nat)) == dec(n as nat));
}

proof fn dec_reads_back(n: nat)
    ensures
        digits_value(dec(n)) == n,
        forall|i: int| 0 <= i < dec(n).len() ==> is_digit(#[trigger] dec(n)[i]),
    decreases n,
{
    if n < 10 {
        assert(seq![digit(n)].drop_last() =~= Seq::empty());
        assert(digits_value(seq![digit(n)].drop_last()) == 0);
    } else {
        dec_reads_back(n / 10);
        assert(dec(n).drop_last() =~= dec(n / 10));
        assert forall|i: int| 0 <= i < dec(n).len() implies is_digit(#[trigger] dec(n)[i]) by {
            if i < dec(n / 10).len() {
                assert(dec(n)[i] == dec(n / 10)[i]);
            }
        }
    }
}

/// An ASCII letter in upper case; any other character as it is.
pub open spec fn upper(c: char) -> char {
    if 'a' <= c <= 'z' {
        ((c as u32) - 32) as char
    } else {
        c
    }
}

/// The letters of ASCII in upper case.
const CAPITALS: &'static str = "ABCDEFGHIJKLMNOPQRSTUVWXYZ";

/// A text with its ASCII letters in upper case and the rest unchanged.
pub(crate) fn to_upper(s: &str) -> (r: String)
    ensures
        r@ == s@.map_values(|c: char| upper(c)),
{
    let n: usize = s.unicode_len();
    let mut r = String::new();
    let mut i: usize = 0;
    let ghost all = s@.map_values(|c: char| upper(c));
    proof {
        reveal_strlit("ABCDEFGHIJKLMNOPQRSTUVWXYZ");
        assert(r@ =~= all.take(0));
    }
    while i < n
        invariant
            i <= n,
            n == s@.len(),
            all == s@.map_values(|c: char| upper(c)),
            CAPITALS@.len() == 26,
            forall|k: int| 0 <= k < 26 ==> #[trigger] CAPITALS@[k] == (('A' as u32) + k) as char,
            r@ == all.take(i as int),
        decreases n - i,
    {
        let c = s.get_char(i);
        let letter = if 'a' <= c && c <= 'z' {
            let k: usize = c as usize - 'a' as usize;
            CAPITALS.substring_char(k, k + 1)
        } else {
            s.substring_char(i, i + 1)
        };
        proof {
            assert(letter@ =~= seq![upper(c)]);
            assert(all.take(i + 1) =~= all.take(i as int) + seq![upper(c)]);
        }
        r.append(letter);
        i += 1;
    }
    proof {
        assert(all.take(n as int) =~= all);
    }
    r
}

/// Parts are joined with the separator between each two and nowhere else.
pub proof fn law_joining_puts_the_separator_between(parts: Seq<Text>, part: Text, sep: Text)
    ensures
        joined(Seq::empty(), sep) == Seq::<char>::empty(),
        joined(seq![part], sep) == part,
        parts.len() > 0 ==> joined(parts.push(part), sep) == joined(parts, sep) + sep + part,
{
    assert(parts.push(part).drop_last() =~= parts);
}

/// A capital is written for each small letter of ASCII, and nothing else changes:
/// capitals stay, and two letters are the same capital only where they are the
/// same letter in either case.
pub proof fn law_capitals_are_of_ascii(c: char)
    ensures
        'a' <= c <= 'z' ==> upper(c) as u32 + 32 == c as u32,
        !('a' <= c <= 'z') ==> upper(c) == c,
{
}

/// A number is read digit by digit, and a sign of plus before it changes nothing.
pub proof fn law_numbers_are_read_digit_by_digit(s: Text, d: nat)
    requires
        d < 10,
        s.len() > 0,
        s[0] != '+',
        number_of(s).is_some(),
    ensures
        number_of(s).unwrap() * 10 + d <= u64::MAX ==> number_of(s.push(digit(d))) == Some(
            (number_of(s).unwrap() * 10 + d) as u64,
        ),
        number_of(s).unwrap() * 10 + d > u64::MAX ==> number_of(s.push(digit(d))).is_none(),
        number_of(seq!['+'] + s) == number_of(s),
{
    let t = s.push(digit(d));
    assert(unsigned(t) == t);
    assert(t.drop_last() =~= s);
    assert(is_digit(digit(d)));
    assert forall|i: int| 0 <= i < t.len() implies is_digit(#[trigger] t[i]) by {
        if i < s.len() {
            assert(t[i] == s[i]);
        }
    }
    assert((seq!['+'] + s).drop_first() =~= s);
}

/// A number below zero is written with a sign before its digits, and any other
/// without one.
pub proof fn law_a_negative_number_has_a_sign(n: nat)
    ensures
        int_text(n as int) == dec(n),
        n > 0 ==> int_text(-(n as int)) == "-"@ + dec(n),
{
}

/// A list of texts is seen by the contracts text by text, and an optional text as
/// the text that it is.
pub proof fn law_texts_are_seen_as_they_are(v: Seq<String>, o: Option<String>, i: int)
    ensures
        texts(v).len() == v.len(),
        0 <= i < v.len() ==> texts(v)[i] == v[i]@,
        o.is_some() ==> opt_text(o) == Some(o.unwrap()@),
        o.is_none() ==> opt_text(o).is_none(),
{
}

} // verus!
