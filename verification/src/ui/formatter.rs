use vstd::prelude::*;

use crate::data::common::QoS;
use crate::data::AString;
use crate::util::strings::push_char;
use crate::ForError;

verus! {

/// An ASCII decimal digit.
pub open spec fn is_digit_char(c: char) -> bool {
    '0' <= c && c <= '9'
}

/// Every character is a decimal digit.
pub open spec fn all_digits(s: Seq<char>) -> bool {
    forall|i: int| 0 <= i < s.len() ==> is_digit_char(#[trigger] s[i])
}

/// The number that a string of decimal digits spells, most significant digit first.
pub open spec fn digits_value(s: Seq<char>) -> nat
    decreases s.len(),
{
    if s.len() == 0 {
        0
    } else {
        (digits_value(s.drop_last()) * 10 + (s.last() as int - '0' as int)) as nat
    }
}

/// The digits of a port text: a leading `+` sign is allowed.
pub open spec fn unsigned_digits(s: Seq<char>) -> Seq<char> {
    if s.len() > 0 && s[0] == '+' {
        s.skip(1)
    } else {
        s
    }
}

/// The decimal text is a number that fits in 16 bits, as `u16::from_str` reads it: an
/// optional `+`, then one or more decimal digits.
pub open spec fn is_u16_text(s: Seq<char>) -> bool {
    let d = unsigned_digits(s);
    d.len() > 0 && all_digits(d) && digits_value(d) <= 65535
}

/// The port a text stands for: none for the empty text.
pub open spec fn port_of(s: Seq<char>) -> Result<Option<u16>, ForError> {
    if s.len() == 0 {
        Ok(None)
    } else if is_u16_text(s) {
        Ok(Some(digits_value(unsigned_digits(s)) as u16))
    } else {
        Err(ForError::InvalidPort)
    }
}

/// The QoS a text stands for.
pub open spec fn qos_of(s: Seq<char>) -> Result<QoS, ForError> {
    if s.len() == 0 {
        Err(ForError::NotEmpty)
    } else if s == seq!['0'] {
        Ok(QoS::AtMostOnce)
    } else if s == seq!['1'] {
        Ok(QoS::AtLeastOnce)
    } else if s == seq!['2'] {
        Ok(QoS::ExactlyOnce)
    } else {
        Err(ForError::InvalidQos)
    }
}

/// The decimal text of a number, without leading zeros.
pub open spec fn decimal_text(n: nat) -> Seq<char>
    decreases n,
{
    if n < 10 {
        seq![('0' as int + n) as char]
    } else {
        decimal_text(n / 10).push(('0' as int + n % 10) as char)
    }
}

proof fn lemma_digits_value_grows(s: Seq<char>, c: char)
    requires
        is_digit_char(c),
    ensures
        digits_value(s.push(c)) >= digits_value(s) * 10,
        digits_value(s.push(c)) == digits_value(s) * 10 + (c as int - '0' as int),
{
    assert(s.push(c).drop_last() =~= s);
}


/// The text a port field shows for a port value.
pub open spec fn port_text(value: Option<u16>) -> Seq<char> {
    match value {
        None => Seq::<char>::empty(),
        Some(port) => decimal_text(port as nat),
    }
}

proof fn lemma_decimal_text(n: nat)
    ensures
        decimal_text(n).len() > 0,
        all_digits(decimal_text(n)),
        digits_value(decimal_text(n)) == n,
    decreases n,
{
    if n < 10 {
        let t = decimal_text(n);
        assert(t.drop_last() =~= Seq::<char>::empty());
        assert((('0' as int + n) as char) as int == '0' as int + n);
        assert(digits_value(Seq::<char>::empty()) == 0);
        assert(digits_value(t) == n);
    } else {
        lemma_decimal_text(n / 10);
        let t = decimal_text(n);
        assert(t.drop_last() =~= decimal_text(n / 10));
        let d = n % 10;
        assert(t.last() == ('0' as int + d) as char);
        assert((('0' as int + d) as char) as int == '0' as int + d);
        assert(digits_value(t) == digits_value(decimal_text(n / 10)) * 10 + d);
        assert((n / 10) * 10 + d == n);
        assert(digits_value(t) == n);
    }
}

/// A port field reads back what it shows: parsing the text shown for a port value gives
/// that value again, for every port and for no port.
pub proof fn lemma_port_round_trip(value: Option<u16>)
    ensures
        port_of(port_text(value)) == Ok::<Option<u16>, ForError>(value),
{
    match value {
        None => {},
        Some(port) => {
            let t = decimal_text(port as nat);
            lemma_decimal_text(port as nat);
            assert(is_digit_char(t[0]));
            assert(unsigned_digits(t) == t);
        },
    }
}

/// A required field was left empty.
#[derive(Debug)]
pub struct MustInputError;

/// A field that must be filled in; it shows ports and QoS levels as numbers.
pub struct MustInput;

impl MustInput {
    /// The text a port field shows: empty for no port, else the port in decimal.
    pub fn format_port(&self, value: &Option<u16>) -> (s: String)
        ensures
            s@ == port_text(*value),
    {
        let mut s = String::new();
        match value {
            None => {},
            Some(port) => push_decimal(&mut s, *port),
        }
        s
    }
}

fn digit_char(d: u16) -> (c: char)
    requires
        d < 10,
    ensures
        c == ('0' as int + d) as char,
{
    match d {
        0 => '0',
        1 => '1',
        2 => '2',
        3 => '3',
        4 => '4',
        5 => '5',
        6 => '6',
        7 => '7',
        8 => '8',
        _ => '9',
    }
}

pub(crate) fn push_decimal(s: &mut String, n: u16)
    ensures
        final(s)@ == old(s)@ + decimal_text(n as nat),
    decreases n,
{
    if n >= 10 {
        push_decimal(s, n / 10);
    }
    push_char(s, digit_char(n % 10));
}

pub fn parse_to_port(input: &str) -> (r: Result<Option<u16>, ForError>)
    ensures
        r == port_of(input@),
{
    if input.is_empty() {
        return Ok(None);
    }
    let ghost s = input@;
    let mut value: u32 = 0;
    let mut overflow = false;
    let mut seen_digit = false;
    let mut first = true;
    for c in it: input.chars()
        invariant
            it.seq() == s,
            s == input@,
            first == (it.index() == 0),
            s.len() > 0,
            ({
                let d = unsigned_digits(s.take(it.index() as int));
                &&& seen_digit == (d.len() > 0)
                &&& all_digits(d)
                &&& !overflow ==> value == digits_value(d) && value <= 65535
                &&& overflow ==> digits_value(d) > 65535
                &&& it.index() > 0 && s[0] == '+' ==> d == s.subrange(1, it.index() as int)
                &&& (it.index() == 0 || s[0] != '+') ==> d == s.take(it.index() as int)
            }),
    {
        let ghost i = it.index();
        let ghost prev = unsigned_digits(s.take(i as int));
        if first && c == '+' {
            proof {
                assert(s.take(1).skip(1) =~= Seq::<char>::empty());
            }
        } else if '0' <= c && c <= '9' {
            proof {
                if s[0] == '+' {
                    assert(s.take(i + 1).skip(1) =~= s.subrange(1, i as int).push(c));
                    assert(s.subrange(1, i + 1) =~= s.subrange(1, i as int).push(c));
                } else {
                    assert(s.take(i + 1) =~= s.take(i as int).push(c));
                }
                assert(unsigned_digits(s.take(i + 1)) =~= prev.push(c));
                lemma_digits_value_grows(prev, c);
            }
            if !overflow {
                let next = value * 10 + ((c as u32) - ('0' as u32));
                if next > 65535 {
                    overflow = true;
                } else {
                    value = next;
                }
            }
            seen_digit = true;
        } else {
            proof {
                let d = unsigned_digits(s);
                assert(!is_digit_char(c));
                assert(s[i as int] == c);
                if s[0] == '+' {
                    assert(i > 0);
                    assert(d[i - 1] == c);
                    assert(!is_digit_char(d[i - 1]));
                } else {
                    assert(d[i as int] == c);
                    assert(!is_digit_char(d[i as int]));
                }
                assert(!all_digits(d));
            }
            return Err(ForError::InvalidPort);
        }
        first = false;
    }
    proof {
        assert(s.take(s.len() as int) =~= s);
        assert(s.subrange(1, s.len() as int) =~= s.skip(1));
    }
    if !seen_digit || overflow {
        return Err(ForError::InvalidPort);
    }
    Ok(Some(value as u16))
}

pub fn parse_to_no_empty(input: &str) -> (r: Result<AString, ForError>)
    ensures
        match r {
            Ok(s) => input@.len() > 0 && s@ == input@,
            Err(e) => input@.len() == 0 && e == ForError::NotEmpty,
        },
{
    if input.is_empty() {
        return Err(ForError::NotEmpty);
    }
    Ok(input.to_owned())
}

pub fn parse_to_qos(input: &str) -> (r: Result<QoS, ForError>)
    ensures
        r == qos_of(input@),
{
    if input.is_empty() {
        return Err(ForError::NotEmpty);
    }
    if input.unicode_len() != 1 {
        proof {
            assert(input@.len() != 1);
            assert(input@ != seq!['0'] && input@ != seq!['1'] && input@ != seq!['2']);
        }
        return Err(ForError::InvalidQos);
    }
    let c = input.get_char(0);
    proof {
        assert(input@ =~= seq![c]);
    }
    match c {
        '0' => Ok(QoS::AtMostOnce),
        '1' => Ok(QoS::AtLeastOnce),
        '2' => Ok(QoS::ExactlyOnce),
        _ => {
            proof {
                assert(seq![c] != seq!['0']) by { assert(seq![c][0] != seq!['0'][0]); }
                assert(seq![c] != seq!['1']) by { assert(seq![c][0] != seq!['1'][0]); }
                assert(seq![c] != seq!['2']) by { assert(seq![c][0] != seq!['2'][0]); }
            }
            Err(ForError::InvalidQos)
        },
    }
}

pub fn check_no_empty(input: &str) -> (b: bool)
    ensures
        b == (input@.len() > 0),
{
    if parse_to_no_empty(input).is_err() {
        return false;
    }
    true
}

pub fn check_qos(input: &str) -> (b: bool)
    ensures
        b == (qos_of(input@) is Ok),
{
    if parse_to_qos(input).is_err() {
        return false;
    }
    true
}

pub fn check_addr(input: &str) -> (b: bool)
    ensures
        b == (input@.len() > 0),
{
    if parse_to_no_empty(input).is_err() {
        return false;
    }
    true
}

pub fn check_port(input: &str) -> (b: bool)
    ensures
        b == (port_of(input@) is Ok),
{
    if parse_to_port(input).is_err() {
        return false;
    }
    true
}

} // verus!
