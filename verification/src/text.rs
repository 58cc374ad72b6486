//! Text helpers: decimal and hexadecimal printing, string comparison and order.
use vstd::prelude::*;
use vstd::string::*;
use vstd::utf8::*;

verus! {

/// The decimal digit `d` as a character.
pub open spec fn digit_char(d: int) -> char {
    if d == 0 {
        '0'
    } else if d == 1 {
        '1'
    } else if d == 2 {
        '2'
    } else if d == 3 {
        '3'
    } else if d == 4 {
        '4'
    } else if d == 5 {
        '5'
    } else if d == 6 {
        '6'
    } else if d == 7 {
        '7'
    } else if d == 8 {
        '8'
    } else if d == 9 {
        '9'
    } else if d == 10 {
        'a'
    } else if d == 11 {
        'b'
    } else if d == 12 {
        'c'
    } else if d == 13 {
        'd'
    } else if d == 14 {
        'e'
    } else {
        'f'
    }
}

/// `n` written in decimal, without leading zeros.
pub open spec fn decimal(n: nat) -> Seq<char>
    decreases n,
{
    if n < 10 {
        seq![digit_char(n as int)]
    } else {
        decimal(n / 10).push(digit_char((n % 10) as int))
    }
}

/// The lowercase digit `d` of base sixteen as a one-character string.
fn digit_text(d: u64) -> (text: &'static str)
    requires
        d < 16,
    ensures
        text@ == seq![digit_char(d as int)],
{
    proof {
        reveal_strlit("0");
        reveal_strlit("1");
        reveal_strlit("2");
        reveal_strlit("3");
        reveal_strlit("4");
        reveal_strlit("5");
        reveal_strlit("6");
        reveal_strlit("7");
        reveal_strlit("8");
        reveal_strlit("9");
        reveal_strlit("a");
        reveal_strlit("b");
        reveal_strlit("c");
        reveal_strlit("d");
        reveal_strlit("e");
        reveal_strlit("f");
    }
    if d == 0 {
        "0"
    } else if d == 1 {
        "1"
    } else if d == 2 {
        "2"
    } else if d == 3 {
        "3"
    } else if d == 4 {
        "4"
    } else if d == 5 {
        "5"
    } else if d == 6 {
        "6"
    } else if d == 7 {
        "7"
    } else if d == 8 {
        "8"
    } else if d == 9 {
        "9"
    } else if d == 10 {
        "a"
    } else if d == 11 {
        "b"
    } else if d == 12 {
        "c"
    } else if d == 13 {
        "d"
    } else if d == 14 {
        "e"
    } else {
        "f"
    }
}

/// Prints `n` in decimal.
pub fn decimal_text(n: u64) -> (text: String)
    ensures
        text@ == decimal(n as nat),
    decreases n,
{
    if n < 10 {
        digit_text(n).to_owned()
    } else {
        let mut text = decimal_text(n / 10);
        text.append(digit_text(n % 10));
        text
    }
}

/// `n` written with exactly sixteen lowercase digits of base sixteen.
pub open spec fn hex16(n: nat) -> Seq<char> {
    hex_digits(n, 16)
}

/// The last `count` digits of `n` in base sixteen, most significant first.
pub open spec fn hex_digits(n: nat, count: nat) -> Seq<char>
    decreases count,
{
    if count == 0 {
        Seq::empty()
    } else {
        hex_digits(n / 16, (count - 1) as nat).push(digit_char((n % 16) as int))
    }
}

fn hex_digits_text(n: u64, count: usize) -> (text: String)
    ensures
        text@ == hex_digits(n as nat, count as nat),
    decreases count,
{
    if count == 0 {
        String::new()
    } else {
        let mut text = hex_digits_text(n / 16, count - 1);
        text.append(digit_text(n % 16));
        text
    }
}

/// Prints `n` as sixteen lowercase hexadecimal digits.
pub fn hex16_text(n: u64) -> (text: String)
    ensures
        text@ == hex16(n as nat),
{
    hex_digits_text(n, 16)
}

/// Whether `c` is one of the digits [`hex16`] writes.
pub open spec fn is_hex_digit(c: char) -> bool {
    ('0' <= c && c <= '9') || ('a' <= c && c <= 'f')
}

/// The digits of `hex_digits` number `count`, and each is a hexadecimal digit.
pub proof fn lemma_hex_digits(n: nat, count: nat)
    ensures
        hex_digits(n, count).len() == count,
        forall|i: int| 0 <= i < count ==> is_hex_digit(#[trigger] hex_digits(n, count)[i]),
    decreases count,
{
    if count > 0 {
        lemma_hex_digits(n / 16, (count - 1) as nat);
    }
}

/// Byte-wise lexicographic order, a proper prefix coming first.
pub open spec fn lex_less(a: Seq<u8>, b: Seq<u8>) -> bool
    decreases a.len(),
{
    if b.len() == 0 {
        false
    } else if a.len() == 0 {
        true
    } else {
        a[0] < b[0] || (a[0] == b[0] && lex_less(a.skip(1), b.skip(1)))
    }
}

/// The order in which strings sort: byte-wise over their UTF-8 encodings.
pub open spec fn text_less(a: Seq<char>, b: Seq<char>) -> bool {
    lex_less(encode_utf8(a), encode_utf8(b))
}

proof fn lemma_lex_total(a: Seq<u8>, b: Seq<u8>)
    ensures
        !(lex_less(a, b) && lex_less(b, a)),
        !lex_less(a, b) && !lex_less(b, a) ==> a == b,
        !lex_less(a, a),
    decreases a.len(),
{
    if a.len() > 0 {
        lemma_lex_total(a.skip(1), a.skip(1));
    }
    if a.len() > 0 && b.len() > 0 {
        lemma_lex_total(a.skip(1), b.skip(1));
        if a[0] == b[0] && a.skip(1) == b.skip(1) {
            assert(a =~= seq![a[0]] + a.skip(1));
            assert(b =~= seq![b[0]] + b.skip(1));
        }
    } else if a.len() == 0 && b.len() == 0 {
        assert(a =~= b);
    }
}

proof fn lemma_lex_transitive(a: Seq<u8>, b: Seq<u8>, c: Seq<u8>)
    requires
        lex_less(a, b),
        lex_less(b, c),
    ensures
        lex_less(a, c),
    decreases a.len(),
{
    if a.len() > 0 && a[0] == b[0] && b[0] == c[0] {
        lemma_lex_transitive(a.skip(1), b.skip(1), c.skip(1));
    }
}

/// Two strings with the same UTF-8 encoding are the same string.
pub proof fn lemma_encoding_injective(a: Seq<char>, b: Seq<char>)
    requires
        encode_utf8(a) == encode_utf8(b),
    ensures
        a == b,
{
    encode_utf8_decode_utf8(a);
    encode_utf8_decode_utf8(b);
}

/// The texts of a sequence of strings.
pub open spec fn texts(strings: Seq<String>) -> Seq<Seq<char>> {
    strings.map_values(|text: String| text@)
}

/// The string order is a strict total order.
pub proof fn lemma_text_total(a: Seq<char>, b: Seq<char>)
    ensures
        !(text_less(a, b) && text_less(b, a)),
        !text_less(a, b) && !text_less(b, a) ==> a == b,
        !text_less(a, a),
{
    lemma_lex_total(encode_utf8(a), encode_utf8(b));
    if encode_utf8(a) == encode_utf8(b) {
        lemma_encoding_injective(a, b);
    }
}

/// The string order is transitive.
pub proof fn lemma_text_transitive(a: Seq<char>, b: Seq<char>, c: Seq<char>)
    requires
        text_less(a, b),
        text_less(b, c),
    ensures
        text_less(a, c),
{
    lemma_lex_transitive(encode_utf8(a), encode_utf8(b), encode_utf8(c));
}

/// How two strings compare.
#[derive(Debug, Clone, Copy, PartialEq, Eq, Structural)]
pub enum TextOrder {
    Before,
    Same,
    After,
}

/// Compares two strings byte-wise.
pub fn text_order(a: &str, b: &str) -> (order: TextOrder)
    ensures
        order == TextOrder::Before <==> text_less(a@, b@),
        order == TextOrder::Same <==> a@ == b@,
        order == TextOrder::After <==> text_less(b@, a@),
{
    let left: &[u8] = a.as_bytes();
    let right: &[u8] = b.as_bytes();
    let mut i: usize = 0;
    proof {
        lemma_text_total(a@, b@);
        assert(left@.skip(0) =~= left@);
        assert(right@.skip(0) =~= right@);
    }
    while i < left.len() && i < right.len()
        invariant
            left@ == encode_utf8(a@),
            right@ == encode_utf8(b@),
            i <= left.len(),
            i <= right.len(),
            lex_less(left@, right@) == lex_less(left@.skip(i as int), right@.skip(i as int)),
            lex_less(right@, left@) == lex_less(right@.skip(i as int), left@.skip(i as int)),
            forall|j: int| 0 <= j < i ==> left@[j] == right@[j],
            text_less(a@, b@) || text_less(b@, a@) || a@ == b@,
            !(text_less(a@, b@) && text_less(b@, a@)),
            a@ == b@ ==> !text_less(a@, b@),
        decreases left.len() - i,
    {
        assert(left@.skip(i as int).skip(1) =~= left@.skip(i + 1));
        assert(right@.skip(i as int).skip(1) =~= right@.skip(i + 1));
        if left[i] < right[i] {
            return TextOrder::Before;
        }
        if left[i] > right[i] {
            return TextOrder::After;
        }
        i = i + 1;
    }
    if i < right.len() {
        TextOrder::Before
    } else if i < left.len() {
        TextOrder::After
    } else {
        proof {
            assert(left@ =~= right@);
            lemma_encoding_injective(a@, b@);
        }
        TextOrder::Same
    }
}

/// Whether two strings are equal.
pub fn text_eq(a: &str, b: &str) -> (same: bool)
    ensures
        same == (a@ == b@),
{
    text_order(a, b) == TextOrder::Same
}

/// The value of a digit, where a letter from `a` on counts from ten.
pub open spec fn digit_value(c: char) -> int {
    if 48 <= c as int <= 57 {
        c as int - 48
    } else {
        c as int - 87
    }
}

/// The number that `digits` spell in `base`, the highest digit first.
pub open spec fn spelled(digits: Seq<char>, base: int) -> int
    decreases digits.len(),
{
    if digits.len() == 0 {
        0
    } else {
        spelled(digits.drop_last(), base) * base + digit_value(digits.last())
    }
}

/// A number in decimal is digits only, without a leading zero, and spells the number.
pub proof fn law_decimal_spells_the_number(n: nat)
    ensures
        decimal(n).len() > 0,
        forall|i: int| 0 <= i < decimal(n).len() ==> 48 <= (#[trigger] decimal(n)[i]) as int <= 57,
        n > 0 ==> decimal(n)[0] as int != 48,
        n == 0 ==> decimal(n).len() == 1,
        spelled(decimal(n), 10) == n,
    decreases n,
{
    if n < 10 {
        assert(decimal(n).drop_last() =~= Seq::<char>::empty());
        assert(spelled(decimal(n).drop_last(), 10) == 0);
    } else {
        law_decimal_spells_the_number(n / 10);
        assert(decimal(n).drop_last() =~= decimal(n / 10));
        assert(decimal(n)[0] == decimal(n / 10)[0]);
    }
}

proof fn lemma_hex_spells(n: nat, count: nat)
    requires
        n < vstd::arithmetic::power::pow(16, count),
    ensures
        spelled(hex_digits(n, count), 16) == n,
        hex_digits(n, count).len() == count,
        forall|i: int|
            0 <= i < count ==> {
                let code = (#[trigger] hex_digits(n, count)[i]) as int;
                48 <= code <= 57 || 97 <= code <= 102
            },
    decreases count,
{
    reveal(vstd::arithmetic::power::pow);
    if count > 0 {
        let rest = hex_digits(n / 16, (count - 1) as nat);
        lemma_hex_spells(n / 16, (count - 1) as nat);
        assert(hex_digits(n, count).drop_last() =~= rest);
    }
}

/// Sixteen hexadecimal digits, lowercase and with leading zeros, spell any number of
/// 64 bits, so two such numbers are spelled alike only if they are equal.
pub proof fn law_hex16_spells_the_number(n: u64, other: u64)
    ensures
        hex16(n as nat).len() == 16,
        forall|i: int|
            0 <= i < 16 ==> {
                let code = (#[trigger] hex16(n as nat)[i]) as int;
                48 <= code <= 57 || 97 <= code <= 102
            },
        spelled(hex16(n as nat), 16) == n,
        hex16(n as nat) == hex16(other as nat) ==> n == other,
{
    reveal_with_fuel(vstd::arithmetic::power::pow, 17);
    assert(vstd::arithmetic::power::pow(16, 16) == 0x1_0000_0000_0000_0000);
    lemma_hex_spells(n as nat, 16);
    lemma_hex_spells(other as nat, 16);
}

/// One sequence of bytes comes before another exactly when, after what they have in
/// common, the first ends or goes on with the lower byte.
pub proof fn law_bytes_are_ordered_as_words(a: Seq<u8>, b: Seq<u8>)
    ensures
        lex_less(a, b) <==> exists|k: int|
            0 <= k <= a.len() && k < b.len() && #[trigger] a.take(k) == b.take(k) && (k == a.len()
                || a[k] < b[k]),
    decreases a.len(),
{
    if b.len() > 0 && a.len() > 0 && a[0] == b[0] {
        let x = a.skip(1);
        let y = b.skip(1);
        law_bytes_are_ordered_as_words(x, y);
        if lex_less(x, y) {
            let k = choose|k: int|
                0 <= k <= x.len() && k < y.len() && #[trigger] x.take(k) == y.take(k) && (k == x.len()
                    || x[k] < y[k]);
            assert forall|i: int| 0 <= i < k + 1 implies a[i] == b[i] by {
                if i > 0 {
                    assert(x.take(k)[i - 1] == y.take(k)[i - 1]);
                }
            }
            assert(a.take(k + 1) =~= b.take(k + 1));
        }
        if exists|k: int|
            0 <= k <= a.len() && k < b.len() && #[trigger] a.take(k) == b.take(k) && (k == a.len()
                || a[k] < b[k]) {
            let k = choose|k: int|
                0 <= k <= a.len() && k < b.len() && #[trigger] a.take(k) == b.take(k) && (k == a.len()
                    || a[k] < b[k]);
            assert forall|i: int| 0 <= i < k - 1 implies x[i] == y[i] by {
                assert(a.take(k)[i + 1] == b.take(k)[i + 1]);
            }
            assert(x.take(k - 1) =~= y.take(k - 1));
        }
    } else if b.len() > 0 {
        assert(a.take(0) =~= b.take(0));
        if exists|k: int|
            0 <= k <= a.len() && k < b.len() && #[trigger] a.take(k) == b.take(k) && (k == a.len()
                || a[k] < b[k]) {
            let k = choose|k: int|
                0 <= k <= a.len() && k < b.len() && #[trigger] a.take(k) == b.take(k) && (k == a.len()
                    || a[k] < b[k]);
            if k > 0 {
                assert(a.take(k)[0] == b.take(k)[0]);
            }
        }
    }
}

/// Texts are ordered by their UTF-8 bytes, and those of a list are its entries, in
/// their order.
pub proof fn law_texts(a: Seq<char>, b: Seq<char>, strings: Seq<String>)
    ensures
        text_less(a, b) <==> lex_less(encode_utf8(a), encode_utf8(b)),
        texts(strings).len() == strings.len(),
        forall|i: int| 0 <= i < strings.len() ==> #[trigger] texts(strings)[i] == strings[i]@,
{
}

/// A hexadecimal digit is a digit of ASCII or a lowercase letter up to `f`.
pub proof fn law_hex_digit_characters(c: char)
    ensures
        is_hex_digit(c) <==> 48 <= c as int <= 57 || 97 <= c as int <= 102,
{
}

} // verus!
