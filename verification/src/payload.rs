//! The wire form of an aggregate reading: a JSON object with the two members
//! `humidity` and `temperature`, in that order, each a decimal number.

use vstd::prelude::*;
use crate::aggregate::AggregateReading;
use crate::decimal::append_decimal;
use crate::decimal::decimal_text;
use crate::decimal::decimal_value;
use crate::decimal::first_index_of;
use crate::decimal::lemma_decimal_text_bytes;
use crate::decimal::lemma_decimal_text_denotes;
use crate::decimal::lemma_first_index_of;

verus! {

/// The byte `}`.
pub const CLOSING_BRACE: u8 = 125;

/// The byte `,`.
pub const ASCII_COMMA: u8 = 44;

/// The bytes of `{"humidity":`, which open the object and name its first
/// member.
pub open spec fn humidity_member() -> Seq<u8> {
    seq![123u8, 34, 104, 117, 109, 105, 100, 105, 116, 121, 34, 58]
}

/// The bytes of `,"temperature":`, which end the first member and name the
/// second.
pub open spec fn temperature_member() -> Seq<u8> {
    seq![44u8, 34, 116, 101, 109, 112, 101, 114, 97, 116, 117, 114, 101, 34, 58]
}

/// The payload for a humidity and a temperature that are given in
/// thousandths of a percent and of a degree.
pub open spec fn payload_text(humidity: int, temperature: int) -> Seq<u8> {
    humidity_member() + decimal_text(humidity) + temperature_member() + decimal_text(
        temperature,
    ).push(CLOSING_BRACE)
}

/// The payload that reports `reading`: both means rounded to the nearest
/// thousandth.
pub open spec fn report_text(reading: AggregateReading) -> Seq<u8> {
    payload_text(reading.humidity.thousandths(), reading.temperature.thousandths())
}

/// The humidity and the temperature, in thousandths, that a payload names:
/// the number between the first member's name and the comma, and the number
/// between the second member's name and the closing brace.
pub open spec fn payload_fields(text: Seq<u8>) -> (int, int) {
    let comma = first_index_of(text, ASCII_COMMA);
    (
        decimal_value(text.subrange(humidity_member().len() as int, comma)),
        decimal_value(
            text.subrange(comma + temperature_member().len(), text.len() - 1),
        ),
    )
}

/// A payload is plain ASCII text.
pub proof fn lemma_payload_is_ascii(humidity: int, temperature: int)
    ensures
        forall|i: int|
            0 <= i < payload_text(humidity, temperature).len() ==> 32 <= #[trigger] payload_text(
                humidity,
                temperature,
            )[i] < 127,
{
    lemma_decimal_text_bytes(humidity);
    lemma_decimal_text_bytes(temperature);
    let first = decimal_text(humidity);
    let second = decimal_text(temperature);
    let text = payload_text(humidity, temperature);
    let a = humidity_member().len() as int;
    let b = a + first.len();
    let c = b + temperature_member().len();
    let d = c + second.len();
    assert forall|i: int| 0 <= i < text.len() implies 32 <= #[trigger] text[i] < 127 by {
        if i < a {
            assert(text[i] == humidity_member()[i]);
        } else if i < b {
            assert(text[i] == first[i - a]);
        } else if i < c {
            assert(text[i] == temperature_member()[i - b]);
        } else if i < d {
            assert(text[i] == second[i - c]);
        } else {
            assert(text[i] == CLOSING_BRACE);
        }
    }
}

/// Decoding a payload gives back both numbers it was written for, exactly.
pub proof fn lemma_payload_round_trip(humidity: int, temperature: int)
    ensures
        payload_fields(payload_text(humidity, temperature)) == (humidity, temperature),
{
    lemma_decimal_text_bytes(humidity);
    lemma_decimal_text_denotes(humidity);
    lemma_decimal_text_denotes(temperature);
    let first = decimal_text(humidity);
    let second = decimal_text(temperature);
    let text = payload_text(humidity, temperature);
    let before = humidity_member() + first;
    let after = temperature_member().skip(1) + second.push(CLOSING_BRACE);
    assert(text =~= before.push(ASCII_COMMA) + after);
    assert forall|i: int| 0 <= i < before.len() implies #[trigger] before[i] != ASCII_COMMA by {
        if i < humidity_member().len() {
            assert(before[i] == humidity_member()[i]);
        } else {
            assert(before[i] == first[i - humidity_member().len()]);
        }
    }
    lemma_first_index_of(before, ASCII_COMMA, after);
    let comma = before.len() as int;
    assert(text.subrange(humidity_member().len() as int, comma) =~= first);
    assert(text.subrange(comma + temperature_member().len(), text.len() - 1) =~= second);
}

/// Two aggregate readings with the same payload have the same rounded means.
pub proof fn lemma_report_text_is_injective(first: AggregateReading, second: AggregateReading)
    requires
        report_text(first) == report_text(second),
    ensures
        first.humidity.thousandths() == second.humidity.thousandths(),
        first.temperature.thousandths() == second.temperature.thousandths(),
{
    lemma_payload_round_trip(first.humidity.thousandths(), first.temperature.thousandths());
    lemma_payload_round_trip(second.humidity.thousandths(), second.temperature.thousandths());
}

/// The serialized form of one aggregate reading.
#[derive(Debug)]
pub struct SensorPayload {
    bytes: Vec<u8>,
}

impl View for SensorPayload {
    type V = Seq<u8>;

    closed spec fn view(&self) -> Seq<u8> {
        self.bytes@
    }
}

impl SensorPayload {
    /// The bytes of the payload.
    pub fn as_bytes(&self) -> (bytes: &[u8])
        ensures
            bytes@ == self@,
    {
        self.bytes.as_slice()
    }

    /// The bytes of the payload, by value.
    pub fn into_bytes(self) -> (bytes: Vec<u8>)
        ensures
            bytes@ == self@,
    {
        self.bytes
    }

    /// The number of bytes in the payload.
    pub fn len(&self) -> (len: usize)
        ensures
            len == self@.len(),
    {
        self.bytes.len()
    }
}

/// Serializes an aggregate reading. No reading is refused.
pub fn encode(reading: &AggregateReading) -> (payload: SensorPayload)
    ensures
        payload@ == report_text(*reading),
{
    let mut bytes: Vec<u8> = vec![123u8, 34, 104, 117, 109, 105, 100, 105, 116, 121, 34, 58];
    assert(bytes@ =~= humidity_member());
    append_decimal(&mut bytes, reading.humidity.to_thousandths());
    let mut name: Vec<u8> =
        vec![44u8, 34, 116, 101, 109, 112, 101, 114, 97, 116, 117, 114, 101, 34, 58];
    assert(name@ =~= temperature_member());
    bytes.append(&mut name);
    append_decimal(&mut bytes, reading.temperature.to_thousandths());
    bytes.push(CLOSING_BRACE);
    assert(bytes@ =~= report_text(*reading));
    SensorPayload { bytes }
}

} // verus!
