//! The textual codec for defined variants: the canonical strings a catalog
//! emits (`"regular"`, `"italic"`, `"<weight>"`, `"<weight>italic"`), the
//! parser that reads them, and the serializer that names cache files.

use vstd::prelude::*;

use crate::error::Error;
use crate::font::{DefinedFontStyle, DefinedFontVariantSpec, DefinedFontWeight};
use crate::util::str_eq;

verus! {

/// The characters of the bare token `"regular"`.
pub open spec fn regular_token() -> Seq<char> {
    seq!['r', 'e', 'g', 'u', 'l', 'a', 'r']
}

/// The characters of the bare token `"italic"`.
pub open spec fn italic_token() -> Seq<char> {
    seq!['i', 't', 'a', 'l', 'i', 'c']
}

/// The characters of the token `"normal"`, accepted as a spelling of the
/// regular style.
pub open spec fn normal_token() -> Seq<char> {
    seq!['n', 'o', 'r', 'm', 'a', 'l']
}

/// The characters of the token `"wght"`, standing in for a variable weight.
pub open spec fn variable_token() -> Seq<char> {
    seq!['w', 'g', 'h', 't']
}

/// Whether `c` is a decimal digit.
pub open spec fn is_dec_digit(c: char) -> bool {
    48 <= c as int <= 57
}

/// The numeric value of a decimal digit character.
pub open spec fn digit_val(c: char) -> nat {
    (c as int - 48) as nat
}

/// The decimal digit character for a value below ten.
pub open spec fn dec_digit_char(d: nat) -> char {
    if d == 0 {
        '0'
    } else if d == 1 {
        '1'
    } else if d == 2 {
        '2'
    } else if d == 3 {
        '3'
    } else if d == 4 {
        '4'
    } else if d == 5 {
        '5'
    } else if d == 6 {
        '6'
    } else if d == 7 {
        '7'
    } else if d == 8 {
        '8'
    } else {
        '9'
    }
}

/// Whether every character of `s` is a decimal digit.
pub open spec fn all_digits(s: Seq<char>) -> bool {
    forall|k: int| 0 <= k < s.len() ==> is_dec_digit(#[trigger] s[k])
}

/// The numeric value of a digit string, read most significant first.
pub open spec fn dec_value(s: Seq<char>) -> nat
    decreases s.len(),
{
    if s.len() == 0 {
        0
    } else {
        dec_value(s.drop_last()) * 10 + digit_val(s.last())
    }
}

/// The canonical decimal digits of a number, without leading zeros.
pub open spec fn dec_digits(n: nat) -> Seq<char>
    decreases n,
{
    if n < 10 {
        seq![dec_digit_char(n)]
    } else {
        dec_digits(n / 10) + seq![dec_digit_char(n % 10)]
    }
}

/// Extending a digit string can only grow its value.
proof fn lemma_dec_value_prefix_le(s: Seq<char>, i: int, j: int)
    requires
        0 <= i <= j <= s.len(),
    ensures
        dec_value(s.subrange(0, i)) <= dec_value(s.subrange(0, j)),
    decreases j - i,
{
    if i < j {
        lemma_dec_value_prefix_le(s, i, j - 1);
        assert(s.subrange(0, j).drop_last() =~= s.subrange(0, j - 1));
        let v = dec_value(s.subrange(0, j - 1));
        assert(dec_value(s.subrange(0, j)) == v * 10 + digit_val(s.subrange(0, j).last()));
    }
}

/// The length of the leading run of decimal digits.
pub open spec fn digit_prefix_end(s: Seq<char>) -> int
    decreases s.len(),
{
    if s.len() == 0 {
        0
    } else if !is_dec_digit(s[0]) {
        0
    } else {
        1 + digit_prefix_end(s.drop_first())
    }
}

proof fn lemma_digit_prefix_end(s: Seq<char>)
    ensures
        0 <= digit_prefix_end(s) <= s.len(),
        forall|k: int| 0 <= k < digit_prefix_end(s) ==> is_dec_digit(#[trigger] s[k]),
        digit_prefix_end(s) < s.len() ==> !is_dec_digit(s[digit_prefix_end(s)]),
    decreases s.len(),
{
    if s.len() > 0 && is_dec_digit(s[0]) {
        lemma_digit_prefix_end(s.drop_first());
        assert forall|k: int| 0 <= k < digit_prefix_end(s) implies is_dec_digit(#[trigger] s[k]) by {
            if k > 0 {
                assert(s.drop_first()[k - 1] == s[k]);
            }
        }
        if digit_prefix_end(s) < s.len() {
            assert(s.drop_first()[digit_prefix_end(s) - 1] == s[digit_prefix_end(s)]);
        }
    }
}

/// The index of the first character that is not a decimal digit, or the
/// length of the string if every character is one.
fn find_digit_prefix_end(s: &str) -> (k: usize)
    ensures
        k as int == digit_prefix_end(s@),
{
    let n = s.unicode_len();
    let mut i: usize = 0;
    while i < n
        invariant
            n == s@.len(),
            0 <= i <= n,
            forall|t: int| 0 <= t < i ==> is_dec_digit(#[trigger] s@[t]),
        decreases n - i,
    {
        let c = s.get_char(i);
        let u = c as u32;
        if !(48 <= u && u <= 57) {
            proof {
                lemma_digit_prefix_end(s@);
                let d = digit_prefix_end(s@);
                if d < i {
                    assert(is_dec_digit(s@[d]));
                }
                if d > i {
                    assert(is_dec_digit(s@[i as int]));
                }
            }
            return i;
        }
        i = i + 1;
    }
    proof {
        lemma_digit_prefix_end(s@);
        let d = digit_prefix_end(s@);
        if d < n {
            assert(is_dec_digit(s@[d]));
        }
    }
    n
}

/// Read a decimal number that must fit in 32 bits unsigned; `None` exactly
/// when the string is empty, holds a non-digit, or overflows.
fn parse_u32(s: &str) -> (r: Option<u32>)
    ensures
        r is Some <==> (s@.len() > 0 && all_digits(s@) && dec_value(s@) <= u32::MAX),
        r matches Some(v) ==> v as nat == dec_value(s@),
{
    let n = s.unicode_len();
    if n == 0 {
        return None;
    }
    let mut acc: u32 = 0;
    let mut i: usize = 0;
    while i < n
        invariant
            n == s@.len(),
            0 < n,
            0 <= i <= n,
            forall|t: int| 0 <= t < i ==> is_dec_digit(#[trigger] s@[t]),
            acc as nat == dec_value(s@.subrange(0, i as int)),
        decreases n - i,
    {
        let c = s.get_char(i);
        let u = c as u32;
        if !(48 <= u && u <= 57) {
            assert(!is_dec_digit(s@[i as int]));
            return None;
        }
        let d = u - 48;
        let wide: u64 = acc as u64 * 10 + d as u64;
        proof {
            assert(s@.subrange(0, i + 1).drop_last() =~= s@.subrange(0, i as int));
            assert(s@.subrange(0, i + 1).last() == s@[i as int]);
        }
        if wide > u32::MAX as u64 {
            proof {
                lemma_dec_value_prefix_le(s@, i + 1, n as int);
                assert(s@.subrange(0, n as int) =~= s@);
            }
            return None;
        }
        acc = wide as u32;
        i = i + 1;
    }
    proof {
        assert(s@.subrange(0, n as int) =~= s@);
    }
    Some(acc)
}

/// Append the decimal digit character of `d`.
fn append_digit(out: &mut String, d: u64)
    requires
        d < 10,
    ensures
        final(out)@ == old(out)@ + seq![dec_digit_char(d as nat)],
{
    proof {
        reveal_strlit("0");
        reveal_strlit("1");
        reveal_strlit("2");
        reveal_strlit("3");
        reveal_strlit("4");
        reveal_strlit("5");
        reveal_strlit("6");
        reveal_strlit("7");
        reveal_strlit("8");
        reveal_strlit("9");
        assert("0"@ =~= seq!['0']);
        assert("1"@ =~= seq!['1']);
        assert("2"@ =~= seq!['2']);
        assert("3"@ =~= seq!['3']);
        assert("4"@ =~= seq!['4']);
        assert("5"@ =~= seq!['5']);
        assert("6"@ =~= seq!['6']);
        assert("7"@ =~= seq!['7']);
        assert("8"@ =~= seq!['8']);
        assert("9"@ =~= seq!['9']);
    }
    match d {
        0 => out.append("0"),
        1 => out.append("1"),
        2 => out.append("2"),
        3 => out.append("3"),
        4 => out.append("4"),
        5 => out.append("5"),
        6 => out.append("6"),
        7 => out.append("7"),
        8 => out.append("8"),
        _ => out.append("9"),
    }
}

/// Append the canonical decimal digits of `n`.
fn push_dec_digits(out: &mut String, n: u64)
    ensures
        final(out)@ == old(out)@ + dec_digits(n as nat),
    decreases n,
{
    if n >= 10 {
        push_dec_digits(out, n / 10);
    }
    append_digit(out, n % 10);
    proof {
        if n < 10 {
            assert(dec_digits(n as nat) =~= seq![dec_digit_char(n as nat)]);
        } else {
            assert(old(out)@ + dec_digits((n / 10) as nat) + seq![dec_digit_char((n % 10) as nat)]
                =~= old(out)@ + dec_digits(n as nat));
        }
    }
}

/// The canonical decimal spelling of an unsigned number.
pub fn u64_to_string(n: u64) -> (r: String)
    ensures
        r@ == dec_digits(n as nat),
{
    let mut r = String::new();
    push_dec_digits(&mut r, n);
    proof {
        assert(r@ =~= dec_digits(n as nat));
    }
    r
}

/// The canonical decimal spelling of a 32-bit number.
pub fn u32_to_string(n: u32) -> (r: String)
    ensures
        r@ == dec_digits(n as nat),
{
    u64_to_string(n as u64)
}

/// The decimal spelling of a signed number: a minus sign before the digits
/// of its magnitude when negative.
pub open spec fn spec_i32_string(n: int) -> Seq<char> {
    if n >= 0 {
        dec_digits(n as nat)
    } else {
        seq!['-'] + dec_digits((-n) as nat)
    }
}

pub fn i32_to_string(n: i32) -> (r: String)
    ensures
        r@ == spec_i32_string(n as int),
{
    if n >= 0 {
        let r = u32_to_string(n as u32);
        r
    } else {
        proof {
            reveal_strlit("-");
            assert("-"@ =~= seq!['-']);
        }
        let mag: u64 = (-(n as i64)) as u64;
        let mut r = String::from_str("-");
        push_dec_digits(&mut r, mag);
        r
    }
}

/// The textual form of a defined weight: its decimal digits, or the
/// variable-axis token.
pub open spec fn spec_weight_string(w: DefinedFontWeight) -> Seq<char> {
    match w {
        DefinedFontWeight::Fixed(n) => dec_digits(n as nat),
        DefinedFontWeight::Variable => variable_token(),
    }
}

pub fn weight_to_string(w: &DefinedFontWeight) -> (r: String)
    ensures
        r@ == spec_weight_string(*w),
{
    match w {
        DefinedFontWeight::Fixed(n) => u32_to_string(*n),
        DefinedFontWeight::Variable => {
            proof {
                reveal_strlit("wght");
                assert("wght"@ =~= variable_token());
            }
            String::from_str("wght")
        },
    }
}

/// The canonical name of a defined style.
pub open spec fn spec_style_name(s: DefinedFontStyle) -> Seq<char> {
    match s {
        DefinedFontStyle::Regular => regular_token(),
        DefinedFontStyle::Italic => italic_token(),
    }
}

pub fn style_name(style: &DefinedFontStyle) -> (r: &'static str)
    ensures
        r@ == spec_style_name(*style),
{
    proof {
        reveal_strlit("regular");
        reveal_strlit("italic");
        assert("regular"@ =~= regular_token());
        assert("italic"@ =~= italic_token());
    }
    match style {
        DefinedFontStyle::Regular => "regular",
        DefinedFontStyle::Italic => "italic",
    }
}

/// The style named by a token: the empty string, `"regular"` and `"normal"`
/// name the regular style, `"italic"` the italic one, anything else nothing.
pub open spec fn spec_style_from_str(s: Seq<char>) -> Option<DefinedFontStyle> {
    if s.len() == 0 || s == regular_token() || s == normal_token() {
        Some(DefinedFontStyle::Regular)
    } else if s == italic_token() {
        Some(DefinedFontStyle::Italic)
    } else {
        None
    }
}

/// The characters of the complaint about a style token the codec does not
/// name: the fixed lead-in followed by the offending token.
pub open spec fn no_such_style_message(s: Seq<char>) -> Seq<char> {
    seq![
        'N', 'o', ' ', 's', 'u', 'c', 'h', ' ', 'f', 'o', 'n', 't', ' ', 's', 't', 'y', 'l', 'e',
        ':', ' ',
    ] + s
}

/// Parse a style token, failing with a deserialisation error naming the
/// token on anything the codec does not name.
pub fn style_from_str(s: &str) -> (r: Result<DefinedFontStyle, Error>)
    ensures
        r matches Ok(v) ==> spec_style_from_str(s@) == Some(v),
        r is Err ==> spec_style_from_str(s@) is None,
        r matches Err(e) ==> e is Deserialisation && e.spec_message() == no_such_style_message(s@),
{
    proof {
        reveal_strlit("regular");
        reveal_strlit("normal");
        reveal_strlit("italic");
        reveal_strlit("No such font style: ");
        assert("regular"@ =~= regular_token());
        assert("normal"@ =~= normal_token());
        assert("italic"@ =~= italic_token());
        assert("No such font style: "@ =~= seq![
            'N', 'o', ' ', 's', 'u', 'c', 'h', ' ', 'f', 'o', 'n', 't', ' ', 's', 't', 'y', 'l',
            'e', ':', ' ',
        ]);
    }
    if s.unicode_len() == 0 {
        return Ok(DefinedFontStyle::Regular);
    }
    if str_eq(s, "regular") || str_eq(s, "normal") {
        Ok(DefinedFontStyle::Regular)
    } else if str_eq(s, "italic") {
        Ok(DefinedFontStyle::Italic)
    } else {
        let mut m = String::from_str("No such font style: ");
        m.append(s);
        proof {
            assert(m@ =~= no_such_style_message(s@));
        }
        Err(Error::Deserialisation(m))
    }
}

/// What a variant string denotes. The bare style tokens stand for weight
/// 400; otherwise the leading digit run is the weight (the whole string, if
/// the first character is already a non-digit) and the remainder must name a
/// style.
pub open spec fn spec_parse_variant(s: Seq<char>) -> Option<DefinedFontVariantSpec> {
    if s == regular_token() {
        Some(
            DefinedFontVariantSpec {
                weight: DefinedFontWeight::Fixed(400),
                style: DefinedFontStyle::Regular,
            },
        )
    } else if s == italic_token() {
        Some(
            DefinedFontVariantSpec {
                weight: DefinedFontWeight::Fixed(400),
                style: DefinedFontStyle::Italic,
            },
        )
    } else {
        let e = digit_prefix_end(s);
        let k = if e == 0 {
            s.len() as int
        } else {
            e
        };
        let wpart = s.subrange(0, k);
        let spart = s.subrange(k, s.len() as int);
        if wpart.len() > 0 && all_digits(wpart) && dec_value(wpart) <= u32::MAX {
            match spec_style_from_str(spart) {
                Some(st) => Some(
                    DefinedFontVariantSpec {
                        weight: DefinedFontWeight::Fixed(dec_value(wpart) as u32),
                        style: st,
                    },
                ),
                None => None,
            }
        } else {
            None
        }
    }
}

/// Parse a catalog variant string, failing with a deserialisation error on a
/// non-numeric weight or an unrecognized style suffix.
pub fn string_to_variant(s: &str) -> (r: Result<DefinedFontVariantSpec, Error>)
    ensures
        r matches Ok(v) ==> spec_parse_variant(s@) == Some(v),
        r is Err ==> spec_parse_variant(s@) is None,
        r matches Err(e) ==> e is Deserialisation,
{
    proof {
        reveal_strlit("regular");
        reveal_strlit("italic");
        assert("regular"@ =~= regular_token());
        assert("italic"@ =~= italic_token());
    }
    if str_eq(s, "regular") {
        return Ok(
            DefinedFontVariantSpec {
                weight: DefinedFontWeight::Fixed(400),
                style: DefinedFontStyle::Regular,
            },
        );
    }
    if str_eq(s, "italic") {
        return Ok(
            DefinedFontVariantSpec {
                weight: DefinedFontWeight::Fixed(400),
                style: DefinedFontStyle::Italic,
            },
        );
    }
    let n = s.unicode_len();
    let e = find_digit_prefix_end(s);
    let k = if e == 0 {
        n
    } else {
        e
    };
    proof {
        lemma_digit_prefix_end(s@);
    }
    let wpart = s.substring_char(0, k);
    let spart = s.substring_char(k, n);
    match parse_u32(wpart) {
        None => {
            let mut m = String::from_str("Invalid font weight: ");
            m.append(wpart);
            Err(Error::Deserialisation(m))
        },
        Some(w) => {
            match style_from_str(spart) {
                Ok(st) => Ok(DefinedFontVariantSpec { weight: DefinedFontWeight::Fixed(w), style: st }),
                Err(err) => Err(err),
            }
        },
    }
}

/// The canonical string of a defined variant: weight 400 collapses to the
/// bare style token; otherwise the weight's text followed by `"italic"` for
/// the italic style.
pub open spec fn spec_variant_string(v: DefinedFontVariantSpec) -> Seq<char> {
    if v.weight == DefinedFontWeight::Fixed(400) {
        match v.style {
            DefinedFontStyle::Regular => regular_token(),
            DefinedFontStyle::Italic => italic_token(),
        }
    } else {
        spec_weight_string(v.weight) + (match v.style {
            DefinedFontStyle::Regular => Seq::<char>::empty(),
            DefinedFontStyle::Italic => italic_token(),
        })
    }
}

proof fn lemma_digit_char_val(d: nat)
    requires
        d < 10,
    ensures
        is_dec_digit(dec_digit_char(d)),
        digit_val(dec_digit_char(d)) == d,
{
}

/// The canonical digits of a number are nonempty, all digits, and denote
/// the number.
proof fn lemma_dec_digits_value(n: nat)
    ensures
        dec_digits(n).len() >= 1,
        all_digits(dec_digits(n)),
        dec_value(dec_digits(n)) == n,
    decreases n,
{
    if n < 10 {
        lemma_digit_char_val(n);
        let s = dec_digits(n);
        assert(s.drop_last() =~= Seq::<char>::empty());
        assert(s.last() == dec_digit_char(n));
        assert(dec_value(s) == dec_value(s.drop_last()) * 10 + digit_val(s.last()));
    } else {
        lemma_dec_digits_value(n / 10);
        lemma_digit_char_val(n % 10);
        let s = dec_digits(n);
        assert(s.drop_last() =~= dec_digits(n / 10));
        assert(s.last() == dec_digit_char(n % 10));
        assert forall|k: int| 0 <= k < s.len() implies is_dec_digit(#[trigger] s[k]) by {
            if k < s.len() - 1 {
                assert(s[k] == dec_digits(n / 10)[k]);
            }
        }
        assert(dec_value(s) == dec_value(s.drop_last()) * 10 + digit_val(s.last()));
        assert(dec_value(s) == (n / 10) * 10 + n % 10);
        assert((n / 10) * 10 + n % 10 == n) by (nonlinear_arith);
    }
}

/// The digit prefix ends exactly where the digits stop.
proof fn lemma_digit_prefix_end_is(s: Seq<char>, k: int)
    requires
        0 <= k <= s.len(),
        forall|t: int| 0 <= t < k ==> is_dec_digit(#[trigger] s[t]),
        k < s.len() ==> !is_dec_digit(s[k]),
    ensures
        digit_prefix_end(s) == k,
{
    lemma_digit_prefix_end(s);
    let d = digit_prefix_end(s);
    if d < k {
        assert(is_dec_digit(s[d]));
    }
    if d > k {
        assert(is_dec_digit(s[k]));
    }
}

/// Law: the codec is stable on the canonical strings a catalog emits.
/// Serializing a defined variant with a fixed weight and parsing the result
/// yields the variant back. (A variable weight serializes to the bare axis
/// token, which the parser does not accept as a weight, so such variants
/// are excluded.)
pub proof fn lemma_codec_round_trip(v: DefinedFontVariantSpec)
    requires
        v.weight is Fixed,
    ensures
        spec_parse_variant(spec_variant_string(v)) == Some(v),
{
    let s = spec_variant_string(v);
    if v.weight == DefinedFontWeight::Fixed(400) {
        match v.style {
            DefinedFontStyle::Regular => {
                assert(s == regular_token());
            },
            DefinedFontStyle::Italic => {
                assert(s == italic_token());
                assert(regular_token().len() != italic_token().len());
            },
        }
    } else if let DefinedFontWeight::Fixed(w) = v.weight {
        lemma_dec_digits_value(w as nat);
        let digits = dec_digits(w as nat);
        assert(!is_dec_digit('r'));
        assert(!is_dec_digit('i'));
        match v.style {
            DefinedFontStyle::Regular => {
                assert(s =~= digits);
                assert(is_dec_digit(s[0]));
                if s == regular_token() {
                    assert(s[0] == 'r');
                }
                if s == italic_token() {
                    assert(s[0] == 'i');
                }
                lemma_digit_prefix_end_is(s, s.len() as int);
                assert(s.subrange(0, s.len() as int) =~= digits);
                assert(s.subrange(s.len() as int, s.len() as int) =~= Seq::<char>::empty());
                assert(spec_style_from_str(s.subrange(s.len() as int, s.len() as int)) == Some(
                    DefinedFontStyle::Regular,
                ));
            },
            DefinedFontStyle::Italic => {
                assert(s =~= digits + italic_token());
                let dlen = digits.len() as int;
                assert(s[0] == digits[0]);
                assert(is_dec_digit(s[0]));
                if s == regular_token() {
                    assert(s[0] == 'r');
                }
                if s == italic_token() {
                    assert(s[0] == 'i');
                }
                assert forall|t: int| 0 <= t < dlen implies is_dec_digit(#[trigger] s[t]) by {
                    assert(s[t] == digits[t]);
                }
                assert(s[dlen] == italic_token()[0]);
                lemma_digit_prefix_end_is(s, dlen);
                assert(s.subrange(0, dlen) =~= digits);
                assert(s.subrange(dlen, s.len() as int) =~= italic_token());
                assert(italic_token()[0] != normal_token()[0]);
                assert(italic_token().len() != regular_token().len());
                assert(spec_style_from_str(italic_token()) == Some(DefinedFontStyle::Italic));
            },
        }
    }
}

/// Serialize a defined variant to its canonical catalog string.
pub fn variant_to_string(variant: &DefinedFontVariantSpec) -> (r: String)
    ensures
        r@ == spec_variant_string(*variant),
{
    proof {
        reveal_strlit("regular");
        reveal_strlit("italic");
        assert("regular"@ =~= regular_token());
        assert("italic"@ =~= italic_token());
    }
    if variant.weight == DefinedFontWeight::Fixed(400) {
        return match variant.style {
            DefinedFontStyle::Regular => String::from_str("regular"),
            DefinedFontStyle::Italic => String::from_str("italic"),
        };
    }
    let mut r = weight_to_string(&variant.weight);
    match variant.style {
        DefinedFontStyle::Regular => {
            proof {
                assert(r@ =~= spec_variant_string(*variant));
            }
        },
        DefinedFontStyle::Italic => {
            r.append("italic");
        },
    }
    r
}

} // verus!
