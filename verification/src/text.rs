use vstd::prelude::*;

verus! {

/// `String::push`: appends `c` to the end of `s`.
#[verifier::external_body]
fn push_char(s: &mut String, c: char)
    ensures
        final(s)@ == old(s)@.push(c),
{
    s.push(c);
}

/// The character of a decimal digit.
pub open spec fn digit_char(d: int) -> char
    recommends
        0 <= d < 10,
{
    (48 + d) as char
}

/// The decimal numeral of `n`, without leading zeros.
pub open spec fn decimal(n: nat) -> Seq<char>
    decreases n,
{
    if n < 10 {
        seq![digit_char(n as int)]
    } else {
        decimal(n / 10).push(digit_char((n % 10) as int))
    }
}

/// The text shown for a completion value kept in hundredths of a percent:
/// the whole percent, a point, the hundredths as two digits, and `%`.
pub open spec fn completion_chars(hundredths: nat) -> Seq<char> {
    decimal(hundredths / 100) + seq![
        '.',
        digit_char(((hundredths % 100) / 10) as int),
        digit_char((hundredths % 10) as int),
        '%',
    ]
}

/// The number a string of decimal digits stands for.
pub open spec fn numeral_value(s: Seq<char>) -> int
    decreases s.len(),
{
    if s.len() == 0 {
        0
    } else {
        numeral_value(s.drop_last()) * 10 + (s.last() as u32 - 48)
    }
}

/// Whether every character of `s` is a decimal digit.
pub open spec fn all_digits(s: Seq<char>) -> bool {
    forall|i: int| 0 <= i < s.len() ==> 48 <= #[trigger] (s[i] as u32) <= 57
}

/// The numeral of `n` is a nonempty string of decimal digits that stands for
/// `n`, with no leading zero.
pub proof fn lemma_decimal(n: nat)
    ensures
        decimal(n).len() >= 1,
        all_digits(decimal(n)),
        numeral_value(decimal(n)) == n,
        decimal(n).len() > 1 ==> decimal(n)[0] != '0',
    decreases n,
{
    if n < 10 {
        let d = decimal(n);
        assert(d.drop_last() =~= Seq::<char>::empty());
        assert(d.last() as u32 == 48 + n);
        assert(numeral_value(d) == numeral_value(d.drop_last()) * 10 + (d.last() as u32 - 48));
        assert(numeral_value(d.drop_last()) == 0);
    } else {
        lemma_decimal(n / 10);
        let d = decimal(n);
        let h = decimal(n / 10);
        assert(d.drop_last() =~= h);
        assert(d.last() as u32 == 48 + n % 10);
        assert(numeral_value(d) == numeral_value(h) * 10 + (n % 10));
        assert(d[0] == h[0]);
        if n / 10 < 10 {
            assert(h[0] == digit_char((n / 10) as int));
            assert(h[0] as u32 == 48 + n / 10);
            assert(h[0] as u32 != 48);
        } else {
            lemma_decimal((n / 10) / 10);
            assert(h.len() > 1);
        }
        assert forall|i: int| 0 <= i < d.len() implies 48 <= #[trigger] (d[i] as u32) <= 57 by {
            if i < h.len() {
                assert(d[i] == h[i]);
            }
        }
    }
}

/// The completion text is the whole percent as a numeral, a point, the
/// hundredths as exactly two digits, and `%`.
pub proof fn lemma_completion_chars(hundredths: nat)
    ensures
        ({
            let t = completion_chars(hundredths);
            let n = t.len();
            &&& n >= 5
            &&& t[n - 1] == '%'
            &&& t[n - 4] == '.'
            &&& all_digits(t.subrange(0, n - 4))
            &&& numeral_value(t.subrange(0, n - 4)) == hundredths / 100
            &&& (n > 5 ==> t[0] != '0')
            &&& all_digits(t.subrange(n - 3, n - 1))
            &&& numeral_value(t.subrange(n - 3, n - 1)) == hundredths % 100
        }),
{
    lemma_decimal(hundredths / 100);
    let t = completion_chars(hundredths);
    let w = decimal(hundredths / 100);
    let n = t.len();
    assert(t.subrange(0, n - 4) =~= w);
    assert(t[0] == w[0]);
    let f = t.subrange(n - 3, n - 1);
    let a = (hundredths % 100) / 10;
    let b = hundredths % 10;
    assert(f =~= seq![digit_char(a as int), digit_char(b as int)]);
    assert(f.drop_last() =~= seq![digit_char(a as int)]);
    assert(f.drop_last().drop_last() =~= Seq::<char>::empty());
    assert(digit_char(a as int) as u32 == 48 + a);
    assert(digit_char(b as int) as u32 == 48 + b);
    assert(numeral_value(f.drop_last().drop_last()) == 0);
    assert(numeral_value(f.drop_last()) == a);
    assert(numeral_value(f) == a * 10 + b);
    assert forall|i: int| 0 <= i < f.len() implies 48 <= #[trigger] (f[i] as u32) <= 57 by {}
}

fn digit(d: u32) -> (c: char)
    requires
        d < 10,
    ensures
        c == digit_char(d as int),
{
    match d {
        0 => '0',
        1 => '1',
        2 => '2',
        3 => '3',
        4 => '4',
        5 => '5',
        6 => '6',
        7 => '7',
        8 => '8',
        _ => '9',
    }
}

fn push_decimal(s: &mut String, n: u32)
    ensures
        final(s)@ == old(s)@ + decimal(n as nat),
    decreases n,
{
    if n >= 10 {
        push_decimal(s, n / 10);
    }
    push_char(s, digit(n % 10));
    proof {
        if n >= 10 {
            assert(old(s)@ + decimal((n / 10) as nat) + seq![digit_char((n % 10) as int)]
                =~= old(s)@ + decimal(n as nat));
        } else {
            assert(old(s)@.push(digit_char((n % 10) as int)) =~= old(s)@ + decimal(n as nat));
        }
    }
}

/// Formats a completion value given in hundredths of a percent, as the
/// splitter shows it: `1234` becomes `12.34%`, `5` becomes `0.05%`.
pub fn completion_text(hundredths: u32) -> (r: String)
    ensures
        r@ == completion_chars(hundredths as nat),
{
    let mut s = String::new();
    push_decimal(&mut s, hundredths / 100);
    push_char(&mut s, '.');
    let frac = hundredths % 100;
    push_char(&mut s, digit(frac / 10));
    push_char(&mut s, digit(frac % 10));
    push_char(&mut s, '%');
    assert(s@ =~= completion_chars(hundredths as nat));
    s
}

/// A `String` holding exactly the characters `chars`.
pub fn chars_to_string(chars: &[char]) -> (r: String)
    ensures
        r@ == chars@,
{
    let mut s = String::new();
    let mut i: usize = 0;
    while i < chars.len()
        invariant
            i <= chars@.len(),
            s@ == chars@.subrange(0, i as int),
        decreases chars@.len() - i,
    {
        push_char(&mut s, chars[i]);
        i = i + 1;
        assert(s@ =~= chars@.subrange(0, i as int));
    }
    assert(chars@.subrange(0, chars@.len() as int) =~= chars@);
    s
}

/// Whether `chars` spells exactly the text `s`.
pub fn chars_match(chars: &[char], s: &str) -> (r: bool)
    ensures
        r == (chars@ == s@),
{
    let n = s.unicode_len();
    if chars.len() != n {
        return false;
    }
    let mut i: usize = 0;
    while i < n
        invariant
            n == s@.len(),
            n == chars@.len(),
            i <= n,
            forall|j: int| 0 <= j < i ==> chars@[j] == s@[j],
        decreases n - i,
    {
        if chars[i] != s.get_char(i) {
            return false;
        }
        i = i + 1;
    }
    assert(chars@ =~= s@);
    true
}

} // verus!
