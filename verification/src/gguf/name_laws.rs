//! How the numbers in tensor names are read and written.

use super::architectures::{
    all_digits, digits_value, index_value, is_digit, layer_and_suffix, layer_tensor_name,
    map_tensor_name, parse_index, unsigned, ModelArchitecture, WeightRole,
};
use crate::text::{decimal_text, first_of, first_of_is_first};
use vstd::prelude::*;

verus! {

/// The name of a tensor of the layer whose number is written as `number`.
pub open spec fn named(number: Seq<char>, suffix: Seq<char>) -> Seq<char> {
    "blk."@ + number + "."@ + suffix
}

proof fn named_is_taken_apart(number: Seq<char>, suffix: Seq<char>)
    requires
        forall|i: int| 0 <= i < number.len() ==> #[trigger] number[i] != '.',
    ensures
        layer_and_suffix(named(number, suffix)) == (match index_value(number) {
            Some(layer) => Some((layer, suffix)),
            None => None,
        }),
        named(number, suffix) != "token_embd.weight"@,
        named(number, suffix) != "output_norm.weight"@,
        named(number, suffix) != "output.weight"@,
{
    reveal_strlit("blk.");
    reveal_strlit(".");
    reveal_strlit("token_embd.weight");
    reveal_strlit("output_norm.weight");
    reveal_strlit("output.weight");
    let name: Seq<char> = named(number, suffix);
    assert(name[0] == 'b');
    assert(name.take(4) =~= "blk."@);
    let rest: Seq<char> = name.skip(4);
    assert(rest =~= number + "."@ + suffix);
    let dot: int = first_of(rest, '.');
    first_of_is_first(rest, '.');
    assert(rest[number.len() as int] == '.');
    assert forall|i: int| 0 <= i < number.len() implies rest[i] != '.' by {
        assert(rest[i] == number[i]);
    }
    assert(dot == number.len());
    assert(rest.take(dot) =~= number);
    assert(rest.skip(dot + 1) =~= suffix);
}

/// Whether a text is made of decimal digits, at least one of them.
pub open spec fn is_numeral(text: Seq<char>) -> bool {
    text.len() > 0 && forall|i: int| 0 <= i < text.len() ==> '0' <= #[trigger] text[i] <= '9'
}

/// A layer's number is read digit by digit: one digit is its own number, and one digit more makes
/// ten times the number and the digit. A plus sign in front changes nothing. A number that is too
/// large is none, and neither is a text with anything but digits.
pub proof fn layer_numbers_are_read_by_digits(
    arch: ModelArchitecture,
    digits: Seq<char>,
    d: char,
    suffix: Seq<char>,
    short: &str,
    short_r: Option<(Option<usize>, WeightRole)>,
    long: &str,
    long_r: Option<(Option<usize>, WeightRole)>,
    one: &str,
    one_r: Option<(Option<usize>, WeightRole)>,
    signed: &str,
    signed_r: Option<(Option<usize>, WeightRole)>,
)
    requires
        is_numeral(digits),
        '0' <= d <= '9',
        short@ == named(digits, suffix),
        call_ensures(map_tensor_name, (arch, short), short_r),
        long@ == named(digits.push(d), suffix),
        call_ensures(map_tensor_name, (arch, long), long_r),
        one@ == named(seq![d], suffix),
        call_ensures(map_tensor_name, (arch, one), one_r),
        signed@ == named("+"@ + digits, suffix),
        call_ensures(map_tensor_name, (arch, signed), signed_r),
    ensures
        one_r matches Some(found) ==> found.0 == Some((d as int - '0' as int) as usize),
        signed_r == short_r,
        short_r matches Some(found) ==> {
            let next = 10 * found.0->Some_0 + (d as int - '0' as int);
            &&& found.0 is Some
            &&& next <= usize::MAX ==> long_r == Some((Some(next as usize), found.1))
            &&& next > usize::MAX ==> long_r is None
        },
        one_r matches Some(found) ==> short_r is Some ==> found.1 == short_r->Some_0.1,
{
    reveal_strlit("+");
    let with_sign: Seq<char> = "+"@ + digits;
    assert forall|i: int| 0 <= i < digits.len() implies is_digit(#[trigger] digits[i]) by {}
    named_is_taken_apart(digits, suffix);
    named_is_taken_apart(digits.push(d), suffix);
    named_is_taken_apart(seq![d], suffix);
    assert forall|i: int| 0 <= i < with_sign.len() implies #[trigger] with_sign[i] != '.' by {
        if i > 0 {
            assert(with_sign[i] == digits[i - 1]);
        }
    }
    named_is_taken_apart(with_sign, suffix);
    assert(with_sign.drop_first() =~= digits);
    assert(unsigned(with_sign) == digits);
    assert(unsigned(digits) == digits);
    assert(digits.push(d)[0] == digits[0]);
    assert(unsigned(digits.push(d)) == digits.push(d));
    assert(digits.push(d).drop_last() =~= digits);
    assert(seq![d].drop_last() =~= Seq::<char>::empty());
    assert(digits_value(Seq::<char>::empty()) == 0);
    assert(digits_value(seq![d]) == (d as nat - '0' as nat));
    assert(all_digits(digits.push(d)));
    assert(all_digits(seq![d]));
    assert(all_digits(digits));
}

/// A tensor name with anything but digits as the number of its layer has no role.
pub proof fn other_numbers_have_no_role(
    arch: ModelArchitecture,
    number: Seq<char>,
    suffix: Seq<char>,
    name: &str,
    r: Option<(Option<usize>, WeightRole)>,
    i: int,
)
    requires
        forall|k: int| 0 <= k < number.len() ==> #[trigger] number[k] != '.',
        number.len() == 0 || (0 <= i < number.len() && !('0' <= number[i] <= '9') && (i > 0
            || number[i] != '+')),
        name@ == named(number, suffix),
        call_ensures(map_tensor_name, (arch, name), r),
    ensures
        r is None,
{
    named_is_taken_apart(number, suffix);
    if number.len() > 0 {
        let digits: Seq<char> = unsigned(number);
        if digits == number {
            assert(!is_digit(digits[i]));
        } else {
            assert(digits[i - 1] == number[i]);
            assert(!is_digit(digits[i - 1]));
        }
    }
}

/// A tensor name that does not start as a layer's does has no role, unless it is one of the three
/// of the whole model.
pub proof fn other_names_have_no_role(
    arch: ModelArchitecture,
    name: &str,
    r: Option<(Option<usize>, WeightRole)>,
)
    requires
        call_ensures(map_tensor_name, (arch, name), r),
        name@ != "token_embd.weight"@,
        name@ != "output_norm.weight"@,
        name@ != "output.weight"@,
        !(name@.len() >= 4 && name@[0] == 'b' && name@[1] == 'l' && name@[2] == 'k' && name@[3]
            == '.'),
    ensures
        r is None,
{
    reveal_strlit("blk.");
    if name@.len() >= 4 && name@.take(4) == "blk."@ {
        assert(name@.take(4)[0] == name@[0]);
        assert(name@.take(4)[1] == name@[1]);
        assert(name@.take(4)[2] == name@[2]);
        assert(name@.take(4)[3] == name@[3]);
    }
}

/// A number is written as the number of its tens, if there are any, and the digit that is left.
pub proof fn numbers_are_written_by_digits(n: usize, r: String, tens: String)
    requires
        call_ensures(decimal_text, (n,), r),
        call_ensures(decimal_text, (n / 10,), tens),
    ensures
        is_numeral(r@),
        r@.last() as int == '0' as int + n % 10,
        n < 10 ==> r@.len() == 1,
        n >= 10 ==> r@.drop_last() == tens@,
        n > 0 ==> r@[0] != '0',
{
    numerals_are_digits(n as nat);
    if n >= 10 {
        assert(r@.drop_last() =~= tens@);
    }
}

proof fn numerals_are_digits(n: nat)
    ensures
        is_numeral(crate::text::decimal(n)),
        n > 0 ==> crate::text::decimal(n)[0] != '0',
    decreases n,
{
    if n >= 10 {
        numerals_are_digits(n / 10);
    }
}

/// The name that is written for a tensor of a layer is the one that has the layer's number and the
/// given end.
pub proof fn layer_names_are_written_out(layer: usize, suffix: &str, number: String, r: String)
    requires
        call_ensures(layer_tensor_name, (layer, suffix), r),
        call_ensures(decimal_text, (layer,), number),
    ensures
        r@ == named(number@, suffix@),
{
}

/// A number is read digit by digit: one digit is its own number, and one digit more makes ten times
/// the number and the digit, unless that is too large. A plus sign in front of the first digit
/// changes nothing. What has anything but digits behind the sign, or nothing there, is no number.
pub proof fn indices_are_read_by_digits(
    text: &[char],
    r: Option<usize>,
    longer: &[char],
    c: char,
    longer_r: Option<usize>,
    signed: &[char],
    signed_r: Option<usize>,
)
    requires
        call_ensures(parse_index, (text,), r),
        longer@ == text@.push(c),
        call_ensures(parse_index, (longer,), longer_r),
        signed@ == seq!['+'] + text@,
        call_ensures(parse_index, (signed,), signed_r),
    ensures
        text@.len() == 0 ==> r is None && signed_r is None,
        text@.len() == 0 && '0' <= c <= '9' ==> longer_r == Some(
            (c as int - '0' as int) as usize,
        ),
        !('0' <= c <= '9') ==> longer_r is None,
        r matches Some(n) ==> '0' <= c <= '9' ==> {
            let next = 10 * n + (c as int - '0' as int);
            &&& next <= usize::MAX ==> longer_r == Some(next as usize)
            &&& next > usize::MAX ==> longer_r is None
        },
        text@.len() > 0 && text@ != seq!['+'] && r is None ==> longer_r is None,
        text@.len() > 0 && text@[0] != '+' ==> signed_r == r,
        text@.len() > 0 && text@[0] == '+' ==> signed_r is None,
{
    let body: Seq<char> = unsigned(text@);
    assert(signed@.drop_first() =~= text@);
    if text@.len() == 0 {
        assert(longer@ =~= seq![c]);
        assert(seq![c].drop_last() =~= Seq::<char>::empty());
        assert(digits_value(Seq::<char>::empty()) == 0);
    } else {
        assert(unsigned(longer@) =~= body.push(c));
        assert(body.push(c).drop_last() =~= body);
        assert(body.push(c)[body.len() as int] == c);
        if body.len() == 0 {
            assert(text@ =~= seq!['+']);
        } else if !all_digits(body) {
            let i: int = choose|i: int| 0 <= i < body.len() && !is_digit(#[trigger] body[i]);
            assert(body.push(c)[i] == body[i]);
        }
    }
}

} // verus!
