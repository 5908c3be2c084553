//! The catalog of requests and responses.
//!
//! Every request writes itself as a fixed template of literals and encoded
//! fields. Every response reads its fields in order from the line the device
//! sent. The wire text of a value is given by its `wire` function, the
//! decoding of an input by `parse`.

use crate::text;
use crate::text::decimal_text;
use crate::text::decimal_value;
use crate::text::digit_run;
use crate::text::is_digit;
use crate::text::three_digits;
use crate::{
    match_literal, parse_literal, parse_u16, parse_until, read_all, read_digits,
    read_hex_digits, read_until,
};
use crate::{EmptyResponse, Error, Parsed, ScpiDeserialize, ScpiRequest, ScpiSerialize};
use vstd::prelude::*;
use vstd::std_specs::convert::FromSpecImpl;
use vstd::std_specs::convert::TryFromSpecImpl;
use vstd::std_specs::ops::NegSpecImpl;
use vstd::string::StrSliceExecFns;
use vstd::string::StringExecFns;

verus! {

/// The detail of the fault for input that starts with none of the literals
/// of the set called `name`.
pub open spec fn token_fault(name: Seq<char>, input: Seq<char>) -> Seq<char> {
    "Unexpected token for "@ + name + ": `"@ + input + "`"@
}

/// Decoding of a token: the value of the first entry of `table`, from the
/// entry with index `from` on, whose literal the input starts with. Input
/// that starts with none of the literals is a fault.
pub open spec fn parse_token<V>(
    input: Seq<char>,
    name: Seq<char>,
    table: Seq<(V, Seq<char>)>,
    from: nat,
) -> Parsed<V>
    decreases table.len() - from,
{
    if from >= table.len() {
        Err(token_fault(name, input))
    } else if table[from as int].1.is_prefix_of(input) {
        Ok((table[from as int].0, input.skip(table[from as int].1.len() as int)))
    } else {
        parse_token(input, name, table, from + 1)
    }
}

/// The fault for input that starts with none of the literals of the set
/// called `name`.
fn token_error(name: &str, input: &str) -> (e: Error)
    ensures
        e matches Error::ResponseDecoding(m) && m@ == token_fault(name@, input@),
{
    Error::ResponseDecoding(
        String::from_str("Unexpected token for ").concat(name).concat(": `").concat(input).concat(
            "`",
        ),
    )
}

/// The table of a set of tokens as plain text.
pub open spec fn token_table<V>(table: Seq<(V, &'static str)>) -> Seq<(V, Seq<char>)> {
    Seq::new(table.len(), |i: int| (table[i].0, table[i].1@))
}

/// Decodes a token of the set called `name`: tries the literals of `table` in
/// order, and returns the value of the first that the input starts with,
/// moving the cursor past the literal. Input that starts with none of them is
/// a fault, and the cursor stays where it was.
fn decode_token<V: Copy>(
    input: &mut &str,
    name: &'static str,
    table: &[(V, &'static str)],
) -> (r: Result<V, Error>)
    ensures
        match parse_token(old(input)@, name@, token_table(table@), 0) {
            Ok((value, rest)) => r == Ok::<V, Error>(value) && final(input)@ == rest,
            Err(detail) => final(input)@ == old(input)@ && (r matches Err(
                Error::ResponseDecoding(m),
            ) && m@ == detail),
        },
{
    let ghost entries = token_table(table@);
    let mut i: usize = 0;
    while i < table.len()
        invariant
            i <= table.len(),
            entries == token_table(table@),
            input@ == old(input)@,
            parse_token(input@, name@, entries, i as nat) == parse_token(input@, name@, entries, 0),
        decreases table.len() - i,
    {
        let value = table[i].0;
        let literal = table[i].1;
        if match_literal(input, literal).is_ok() {
            return Ok(value);
        }
        i += 1;
    }
    Err(token_error(name, *input))
}

/// A decoded value followed by a literal: the value, with what follows the
/// literal left over.
pub open spec fn then_literal<V>(parsed: Parsed<V>, literal: Seq<char>) -> Parsed<V> {
    match parsed {
        Err(detail) => Err(detail),
        Ok((value, rest)) => match parse_literal(rest, literal) {
            Err(detail) => Err(detail),
            Ok((_, after)) => Ok((value, after)),
        },
    }
}

/// A decoded value that a literal may follow: the value, with what follows
/// the literal left over where the literal is there, and with the input after
/// the value left over where it is not.
pub open spec fn then_literal_if_present<V>(parsed: Parsed<V>, literal: Seq<char>) -> Parsed<V> {
    match parsed {
        Err(detail) => Err(detail),
        Ok((value, rest)) => match parse_literal(rest, literal) {
            Err(_) => Ok((value, rest)),
            Ok((_, after)) => Ok((value, after)),
        },
    }
}

/// Moves the cursor past `literal` where the input starts with it, and
/// leaves the cursor where the input does not.
fn skip_literal(input: &mut &str, literal: &'static str)
    ensures
        final(input)@ == match parse_literal(old(input)@, literal@) {
            Ok((_, rest)) => rest,
            Err(_) => old(input)@,
        },
{
    match match_literal(input, literal) {
        Ok(()) => {},
        Err(_) => {},
    }
}

/// Moves the cursor past `literal`. If the input does not start with it, the
/// cursor goes back to `start`, where the decoding in progress began.
fn match_or_rewind<'a>(
    input: &mut &'a str,
    literal: &'static str,
    start: &'a str,
) -> (r: Result<(), Error>)
    ensures
        match parse_literal(old(input)@, literal@) {
            Ok((_, rest)) => r is Ok && final(input)@ == rest,
            Err(detail) => final(input)@ == start@ && (r matches Err(Error::ResponseDecoding(m))
                && m@ == detail),
        },
{
    match match_literal(input, literal) {
        Ok(()) => Ok(()),
        Err(e) => {
            *input = start;
            Err(e)
        },
    }
}

/// Returns the text before the first `delimiter` and moves the cursor past
/// the delimiter. If the input holds none, the cursor goes back to `start`,
/// where the decoding in progress began.
fn read_until_or_rewind<'a>(
    input: &mut &'a str,
    delimiter: char,
    start: &'a str,
) -> (r: Result<&'a str, Error>)
    ensures
        match parse_until(old(input)@, delimiter) {
            Ok((field, rest)) => (r matches Ok(x) && x@ == field) && final(input)@ == rest,
            Err(detail) => final(input)@ == start@ && (r matches Err(Error::ResponseDecoding(m))
                && m@ == detail),
        },
{
    match read_until(input, delimiter) {
        Ok(field) => Ok(field),
        Err(e) => {
            *input = start;
            Err(e)
        },
    }
}

/// `literal + rest` starts with `literal`, and `rest` is what follows it.
pub proof fn lemma_literal_then(literal: Seq<char>, rest: Seq<char>)
    ensures
        literal.is_prefix_of(literal + rest),
        (literal + rest).skip(literal.len() as int) == rest,
        parse_literal(literal + rest, literal) == Ok::<((), Seq<char>), Seq<char>>(((), rest)),
{
    assert((literal + rest).subrange(0, literal.len() as int) =~= literal);
    assert((literal + rest).skip(literal.len() as int) =~= rest);
}

/// A type whose values can be both written and read, and are read back as
/// they were written.
pub trait ScpiCodec: ScpiSerialize + ScpiDeserialize {
    /// Whether this is a value that the type's constructors can make.
    spec fn valid(&self) -> bool;

    /// Whether input that follows the wire text of a value of this type is
    /// kept apart from it: text that would read as a continuation of the
    /// value is not.
    spec fn delimits(rest: Seq<char>) -> bool;

    /// Decoding the wire text of a value, whatever delimited input follows
    /// it, gives the value back and leaves exactly that input over.
    proof fn round_trip(&self, rest: Seq<char>)
        requires
            self.valid(),
            Self::delimits(rest),
        ensures
            Self::parse(self.wire() + rest) == Ok::<(Self::V, Seq<char>), Seq<char>>(
                (self@, rest),
            ),
    ;
}

/// The request for the identity of the device: manufacturer, model, serial
/// number, software version and hardware version.
#[derive(Debug, Clone, Copy, PartialEq, Eq, Structural)]
pub struct IdentityRequest;

impl ScpiSerialize for IdentityRequest {
    open spec fn wire(&self) -> Seq<char> {
        "*IDN?"@
    }

    fn serialize(&self, out: &mut String) {
        out.append("*IDN?");
    }
}

impl ScpiRequest for IdentityRequest {
    type Response = IdentityResponse;
}

/// The identity of the device.
#[derive(Debug, Clone)]
pub struct IdentityResponse {
    pub company_name: String,
    pub model_number: String,
    pub serial_number: String,
    pub software_version: String,
    pub hardware_version: String,
}

impl View for IdentityResponse {
    type V = IdentityView;

    open spec fn view(&self) -> IdentityView {
        IdentityView {
            company_name: self.company_name@,
            model_number: self.model_number@,
            serial_number: self.serial_number@,
            software_version: self.software_version@,
            hardware_version: self.hardware_version@,
        }
    }
}

impl ScpiDeserialize for IdentityResponse {
    open spec fn parse(input: Seq<char>) -> Parsed<IdentityView> {
        parse_identity(input)
    }

    fn deserialize(input: &mut &str) -> (r: Result<Self, Error>) {
        let start: &str = *input;
        let company = match read_until_or_rewind(input, ',', start) {
            Ok(field) => field,
            Err(e) => {
                return Err(e);
            },
        };
        let model = match read_until_or_rewind(input, ',', start) {
            Ok(field) => field,
            Err(e) => {
                return Err(e);
            },
        };
        let serial = match read_until_or_rewind(input, ',', start) {
            Ok(field) => field,
            Err(e) => {
                return Err(e);
            },
        };
        let software = match read_until_or_rewind(input, ',', start) {
            Ok(field) => field,
            Err(e) => {
                return Err(e);
            },
        };
        let hardware = match read_until_or_rewind(input, '\n', start) {
            Ok(field) => field,
            Err(e) => {
                return Err(e);
            },
        };
        Ok(
            IdentityResponse {
                company_name: text::trim(company).to_owned(),
                model_number: text::trim(model).to_owned(),
                serial_number: text::trim(serial).to_owned(),
                software_version: text::trim(software).to_owned(),
                hardware_version: text::trim(hardware).to_owned(),
            },
        )
    }
}

/// The identity of the device as plain text.
pub struct IdentityView {
    pub company_name: Seq<char>,
    pub model_number: Seq<char>,
    pub serial_number: Seq<char>,
    pub software_version: Seq<char>,
    pub hardware_version: Seq<char>,
}

/// Decoding of the identity: four fields that end with a comma and a fifth
/// that ends with the line, each without the white space around it.
pub open spec fn parse_identity(input: Seq<char>) -> Parsed<IdentityView> {
    match parse_until(input, ',') {
        Err(detail) => Err(detail),
        Ok((company, after_company)) => match parse_until(after_company, ',') {
            Err(detail) => Err(detail),
            Ok((model, after_model)) => match parse_until(after_model, ',') {
                Err(detail) => Err(detail),
                Ok((serial, after_serial)) => match parse_until(after_serial, ',') {
                    Err(detail) => Err(detail),
                    Ok((software, after_software)) => match parse_until(after_software, '\n') {
                        Err(detail) => Err(detail),
                        Ok((hardware, rest)) => Ok(
                            (
                                IdentityView {
                                    company_name: text::trimmed(company),
                                    model_number: text::trimmed(model),
                                    serial_number: text::trimmed(serial),
                                    software_version: text::trimmed(software),
                                    hardware_version: text::trimmed(hardware),
                                },
                                rest,
                            ),
                        ),
                    },
                },
            },
        },
    }
}

/// A slot of the device's nonvolatile memory.
#[derive(Debug, Clone, Copy, PartialEq, Eq, Structural)]
pub enum MemorySlot {
    One,
    Two,
    Three,
    Four,
    Five,
}

impl View for MemorySlot {
    type V = MemorySlot;

    open spec fn view(&self) -> MemorySlot {
        *self
    }
}

impl ScpiSerialize for MemorySlot {
    open spec fn wire(&self) -> Seq<char> {
        match self {
            MemorySlot::One => "1"@,
            MemorySlot::Two => "2"@,
            MemorySlot::Three => "3"@,
            MemorySlot::Four => "4"@,
            MemorySlot::Five => "5"@,
        }
    }

    fn serialize(&self, out: &mut String) {
        match self {
            MemorySlot::One => out.append("1"),
            MemorySlot::Two => out.append("2"),
            MemorySlot::Three => out.append("3"),
            MemorySlot::Four => out.append("4"),
            MemorySlot::Five => out.append("5"),
        }
    }
}

impl MemorySlot {
    /// The slots with their literals, in the order in which decoding tries
    /// them.
    pub open spec fn literals() -> Seq<(MemorySlot, Seq<char>)> {
        seq![
            (MemorySlot::One, "1"@),
            (MemorySlot::Two, "2"@),
            (MemorySlot::Three, "3"@),
            (MemorySlot::Four, "4"@),
            (MemorySlot::Five, "5"@),
        ]
    }
}

impl ScpiDeserialize for MemorySlot {
    /// The first literal of the table that the input starts with decides.
    open spec fn parse(input: Seq<char>) -> Parsed<MemorySlot> {
        parse_token(input, "MemorySlot"@, MemorySlot::literals(), 0)
    }

    fn deserialize(input: &mut &str) -> (r: Result<Self, Error>) {
        let table = [
            (MemorySlot::One, "1"),
            (MemorySlot::Two, "2"),
            (MemorySlot::Three, "3"),
            (MemorySlot::Four, "4"),
            (MemorySlot::Five, "5"),
        ];
        assert(token_table(table@) =~= MemorySlot::literals());
        decode_token(input, "MemorySlot", table.as_slice())
    }
}

impl ScpiCodec for MemorySlot {
    open spec fn valid(&self) -> bool {
        true
    }

    open spec fn delimits(rest: Seq<char>) -> bool {
        true
    }

    proof fn round_trip(&self, rest: Seq<char>) {
        reveal_strlit("1");
        reveal_strlit("2");
        reveal_strlit("3");
        reveal_strlit("4");
        reveal_strlit("5");
        reveal_with_fuel(parse_token, 6);
        lemma_literal_then(self.wire(), rest);
        let input = self.wire() + rest;
        assert(input[0] == self.wire()[0]);
    }
}

impl TryFrom<u8> for MemorySlot {
    type Error = ();

    fn try_from(value: u8) -> (slot: Result<Self, ()>) {
        match value {
            1 => Ok(MemorySlot::One),
            2 => Ok(MemorySlot::Two),
            3 => Ok(MemorySlot::Three),
            4 => Ok(MemorySlot::Four),
            5 => Ok(MemorySlot::Five),
            _ => Err(()),
        }
    }
}

impl TryFromSpecImpl<u8> for MemorySlot {
    open spec fn obeys_try_from_spec() -> bool {
        true
    }

    /// The slot with the number `value`, for the numbers one to five.
    open spec fn try_from_spec(value: u8) -> Result<Self, ()> {
        if value == 1 {
            Ok(MemorySlot::One)
        } else if value == 2 {
            Ok(MemorySlot::Two)
        } else if value == 3 {
            Ok(MemorySlot::Three)
        } else if value == 4 {
            Ok(MemorySlot::Four)
        } else if value == 5 {
            Ok(MemorySlot::Five)
        } else {
            Err(())
        }
    }
}

/// The request to save the current state in a slot of nonvolatile memory.
#[derive(Debug, Clone, Copy, PartialEq, Eq, Structural)]
pub struct SaveRequest {
    pub slot: MemorySlot,
}

impl ScpiSerialize for SaveRequest {
    open spec fn wire(&self) -> Seq<char> {
        "*SAV "@ + self.slot.wire()
    }

    fn serialize(&self, out: &mut String) {
        out.append("*SAV ");
        self.slot.serialize(out);
        assert(out@ =~= old(out)@ + self.wire());
    }
}

impl ScpiRequest for SaveRequest {
    type Response = EmptyResponse;
}

/// The request to recall the state saved in a slot of nonvolatile memory.
#[derive(Debug, Clone, Copy, PartialEq, Eq, Structural)]
pub struct RecallRequest {
    pub slot: MemorySlot,
}

impl ScpiSerialize for RecallRequest {
    open spec fn wire(&self) -> Seq<char> {
        "*RCL "@ + self.slot.wire()
    }

    fn serialize(&self, out: &mut String) {
        out.append("*RCL ");
        self.slot.serialize(out);
        assert(out@ =~= old(out)@ + self.wire());
    }
}

impl ScpiRequest for RecallRequest {
    type Response = EmptyResponse;
}

/// One of the two channels that can be measured and limited.
#[derive(Debug, Clone, Copy, PartialEq, Eq, Structural)]
pub enum Channel {
    One,
    Two,
}

impl View for Channel {
    type V = Channel;

    open spec fn view(&self) -> Channel {
        *self
    }
}

impl ScpiSerialize for Channel {
    open spec fn wire(&self) -> Seq<char> {
        match self {
            Channel::One => "CH1"@,
            Channel::Two => "CH2"@,
        }
    }

    fn serialize(&self, out: &mut String) {
        match self {
            Channel::One => out.append("CH1"),
            Channel::Two => out.append("CH2"),
        }
    }
}

impl Channel {
    /// The channels with their literals, in the order in which decoding tries
    /// them.
    pub open spec fn literals() -> Seq<(Channel, Seq<char>)> {
        seq![(Channel::One, "CH1"@), (Channel::Two, "CH2"@)]
    }
}

impl ScpiDeserialize for Channel {
    /// The first literal of the table that the input starts with decides.
    open spec fn parse(input: Seq<char>) -> Parsed<Channel> {
        parse_token(input, "Channel"@, Channel::literals(), 0)
    }

    fn deserialize(input: &mut &str) -> (r: Result<Self, Error>) {
        let table = [(Channel::One, "CH1"), (Channel::Two, "CH2")];
        assert(token_table(table@) =~= Channel::literals());
        decode_token(input, "Channel", table.as_slice())
    }
}

impl ScpiCodec for Channel {
    open spec fn valid(&self) -> bool {
        true
    }

    open spec fn delimits(rest: Seq<char>) -> bool {
        true
    }

    proof fn round_trip(&self, rest: Seq<char>) {
        reveal_strlit("CH1");
        reveal_strlit("CH2");
        reveal_with_fuel(parse_token, 3);
        lemma_literal_then(self.wire(), rest);
        let input = self.wire() + rest;
        assert(input[2] == self.wire()[2]);
    }
}

impl TryFrom<u8> for Channel {
    type Error = ();

    fn try_from(value: u8) -> (channel: Result<Self, ()>) {
        match value {
            1 => Ok(Channel::One),
            2 => Ok(Channel::Two),
            _ => Err(()),
        }
    }
}

impl TryFromSpecImpl<u8> for Channel {
    open spec fn obeys_try_from_spec() -> bool {
        true
    }

    /// The channel with the number `value`, for the numbers one and two.
    open spec fn try_from_spec(value: u8) -> Result<Self, ()> {
        if value == 1 {
            Ok(Channel::One)
        } else if value == 2 {
            Ok(Channel::Two)
        } else {
            Err(())
        }
    }
}

impl TryFrom<OutputChannel> for Channel {
    type Error = ();

    fn try_from(value: OutputChannel) -> (channel: Result<Self, ()>) {
        match value {
            OutputChannel::One => Ok(Channel::One),
            OutputChannel::Two => Ok(Channel::Two),
            OutputChannel::Three => Err(()),
        }
    }
}

impl TryFromSpecImpl<OutputChannel> for Channel {
    open spec fn obeys_try_from_spec() -> bool {
        true
    }

    /// The first two outputs are channels; the third is not.
    open spec fn try_from_spec(value: OutputChannel) -> Result<Self, ()> {
        match value {
            OutputChannel::One => Ok(Channel::One),
            OutputChannel::Two => Ok(Channel::Two),
            OutputChannel::Three => Err(()),
        }
    }
}

/// The request to select the channel that later requests without a channel
/// apply to.
#[derive(Debug, Clone, Copy, PartialEq, Eq, Structural)]
pub struct SetInstrumentRequest {
    pub channel: Channel,
}

impl ScpiSerialize for SetInstrumentRequest {
    open spec fn wire(&self) -> Seq<char> {
        "INSTrument "@ + self.channel.wire()
    }

    fn serialize(&self, out: &mut String) {
        out.append("INSTrument ");
        self.channel.serialize(out);
        assert(out@ =~= old(out)@ + self.wire());
    }
}

impl ScpiRequest for SetInstrumentRequest {
    type Response = EmptyResponse;
}

/// The request for the selected channel.
#[derive(Debug, Clone, Copy, PartialEq, Eq, Structural)]
pub struct GetInstrumentRequest;

impl ScpiSerialize for GetInstrumentRequest {
    open spec fn wire(&self) -> Seq<char> {
        "INSTrument?"@
    }

    fn serialize(&self, out: &mut String) {
        out.append("INSTrument?");
    }
}

impl ScpiRequest for GetInstrumentRequest {
    type Response = GetInstrumentResponse;
}

/// The selected channel.
#[derive(Debug, Clone, Copy, PartialEq, Eq, Structural)]
pub struct GetInstrumentResponse {
    pub channel: Channel,
}

impl View for GetInstrumentResponse {
    type V = Channel;

    open spec fn view(&self) -> Channel {
        self.channel
    }
}

impl ScpiDeserialize for GetInstrumentResponse {
    /// A channel, and the line feed that ends the line where one follows.
    open spec fn parse(input: Seq<char>) -> Parsed<Channel> {
        then_literal_if_present(Channel::parse(input), "\n"@)
    }

    fn deserialize(input: &mut &str) -> (r: Result<Self, Error>) {
        let channel = match Channel::deserialize(input) {
            Ok(channel) => channel,
            Err(e) => {
                return Err(e);
            },
        };
        skip_literal(input, "\n");
        Ok(GetInstrumentResponse { channel })
    }
}

/// The selected channel is read back from its token alone and from its token
/// with the line feed that ends the line, and nothing is left over of either.
pub proof fn lemma_selected_channel(channel: Channel)
    ensures
        GetInstrumentResponse::parse(channel.wire()) == Ok::<(Channel, Seq<char>), Seq<char>>(
            (channel, Seq::empty()),
        ),
        GetInstrumentResponse::parse(channel.wire() + "\n"@) == Ok::<
            (Channel, Seq<char>),
            Seq<char>,
        >((channel, Seq::empty())),
{
    reveal_strlit("\n");
    channel.round_trip(Seq::empty());
    channel.round_trip("\n"@);
    assert(channel.wire() + Seq::<char>::empty() =~= channel.wire());
    lemma_literal_then("\n"@, Seq::empty());
    assert("\n"@ + Seq::<char>::empty() =~= "\n"@);
}

/// A quantity that the device measures.
#[derive(Debug, Clone, Copy, PartialEq, Eq, Structural)]
pub enum Quantity {
    Current,
    Voltage,
    Power,
}

impl View for Quantity {
    type V = Quantity;

    open spec fn view(&self) -> Quantity {
        *self
    }
}

impl ScpiSerialize for Quantity {
    open spec fn wire(&self) -> Seq<char> {
        match self {
            Quantity::Current => "CURRent"@,
            Quantity::Voltage => "VOLTage"@,
            Quantity::Power => "POWEr"@,
        }
    }

    fn serialize(&self, out: &mut String) {
        match self {
            Quantity::Current => out.append("CURRent"),
            Quantity::Voltage => out.append("VOLTage"),
            Quantity::Power => out.append("POWEr"),
        }
    }
}

impl Quantity {
    /// The quantities with their literals, in the order in which decoding tries
    /// them.
    pub open spec fn literals() -> Seq<(Quantity, Seq<char>)> {
        seq![
            (Quantity::Current, "CURRent"@),
            (Quantity::Voltage, "VOLTage"@),
            (Quantity::Power, "POWEr"@),
        ]
    }
}

impl ScpiDeserialize for Quantity {
    /// The first literal of the table that the input starts with decides.
    open spec fn parse(input: Seq<char>) -> Parsed<Quantity> {
        parse_token(input, "Quantity"@, Quantity::literals(), 0)
    }

    fn deserialize(input: &mut &str) -> (r: Result<Self, Error>) {
        let table = [
            (Quantity::Current, "CURRent"),
            (Quantity::Voltage, "VOLTage"),
            (Quantity::Power, "POWEr"),
        ];
        assert(token_table(table@) =~= Quantity::literals());
        decode_token(input, "Quantity", table.as_slice())
    }
}

impl ScpiCodec for Quantity {
    open spec fn valid(&self) -> bool {
        true
    }

    open spec fn delimits(rest: Seq<char>) -> bool {
        true
    }

    proof fn round_trip(&self, rest: Seq<char>) {
        reveal_strlit("CURRent");
        reveal_strlit("VOLTage");
        reveal_strlit("POWEr");
        reveal_with_fuel(parse_token, 4);
        lemma_literal_then(self.wire(), rest);
        let input = self.wire() + rest;
        assert(input[0] == self.wire()[0]);
    }
}

impl From<&LimitQuantity> for Quantity {
    fn from(value: &LimitQuantity) -> (quantity: Quantity) {
        match value {
            LimitQuantity::Current => Quantity::Current,
            LimitQuantity::Voltage => Quantity::Voltage,
        }
    }
}

impl FromSpecImpl<&LimitQuantity> for Quantity {
    open spec fn obeys_from_spec() -> bool {
        true
    }

    open spec fn from_spec(value: &LimitQuantity) -> Quantity {
        value.quantity()
    }
}

/// A physical quantity (volts, amperes, watts) as a whole number of
/// thousandths of its unit.
#[derive(Debug, Clone, Copy, PartialEq, Eq, Structural)]
pub struct Reading {
    millis: u16,
}

impl View for Reading {
    type V = u16;

    /// The number of thousandths.
    closed spec fn view(&self) -> u16 {
        self.millis
    }
}

impl Reading {
    /// The reading of `millis` thousandths.
    pub fn from_millis(millis: u16) -> (reading: Reading)
        ensures
            reading@ == millis,
    {
        Reading { millis }
    }

    /// The number of thousandths.
    pub fn get_millis(&self) -> (millis: u16)
        ensures
            millis == self@,
    {
        self.millis
    }
}

impl ScpiSerialize for Reading {
    open spec fn wire(&self) -> Seq<char> {
        reading_text(self@)
    }

    fn serialize(&self, out: &mut String) {
        text::push_decimal((self.millis / 1000) as u64, out);
        out.append(".");
        text::push_three_digits(self.millis % 1000, out);
        assert(out@ =~= old(out)@ + reading_text(self@));
    }
}

impl ScpiDeserialize for Reading {
    open spec fn parse(input: Seq<char>) -> Parsed<u16> {
        parse_reading(input)
    }

    fn deserialize(input: &mut &str) -> (r: Result<Self, Error>) {
        let start: &str = *input;
        let whole = match u16::deserialize(input) {
            Ok(whole) => whole,
            Err(e) => {
                return Err(e);
            },
        };
        let mut millis: u32 = whole as u32 * 1000;
        if match_literal(input, ".").is_ok() {
            let digits = read_digits(input);
            let count = digits.unicode_len();
            if count == 0 || count > 3 {
                *input = start;
                return Err(
                    Error::ResponseDecoding(
                        String::from_str("Expected one to three fractional digits, found `").concat(
                            digits,
                        ).concat("`"),
                    ),
                );
            }
            proof {
                text::lemma_decimal_value_short(digits@);
            }
            let value: u32 = match text::decimal_of(digits) {
                Some(value) => value as u32,
                None => 0,
            };
            millis = millis + if count == 1 {
                value * 100
            } else if count == 2 {
                value * 10
            } else {
                value
            };
        }
        if millis > 0xffff {
            *input = start;
            return Err(reading_range_error(start));
        }
        Ok(Reading { millis: millis as u16 })
    }
}

impl ScpiCodec for Reading {
    open spec fn valid(&self) -> bool {
        true
    }

    /// What follows a reading must not start with a digit.
    open spec fn delimits(rest: Seq<char>) -> bool {
        rest.len() > 0 ==> !is_digit(rest[0])
    }

    proof fn round_trip(&self, rest: Seq<char>) {
        lemma_reading_round_trip(self@, rest);
    }
}

/// The wire text of a reading: the whole units, a decimal point and the
/// thousandths in three digits.
pub open spec fn reading_text(millis: u16) -> Seq<char> {
    decimal_text(millis as nat / 1000) + "."@ + three_digits(millis as nat % 1000)
}

/// The thousandths that one to three fractional digits stand for.
pub open spec fn fraction_millis(digits: Seq<char>) -> nat
    recommends
        1 <= digits.len() <= 3,
{
    if digits.len() == 1 {
        decimal_value(digits) * 100
    } else if digits.len() == 2 {
        decimal_value(digits) * 10
    } else {
        decimal_value(digits)
    }
}

/// The detail of the fault for a reading whose fraction is missing or finer
/// than thousandths.
pub open spec fn fraction_fault(digits: Seq<char>) -> Seq<char> {
    "Expected one to three fractional digits, found `"@ + digits + "`"@
}

/// The detail of the fault for a reading above 65.535.
pub open spec fn reading_range_fault(input: Seq<char>) -> Seq<char> {
    "Reading exceeds the range of 65.535: `"@ + input + "`"@
}

/// A reading of `millis` thousandths with `rest` left over, provided that the
/// count fits; `input` is what the reading was decoded from.
pub open spec fn reading_of(millis: nat, rest: Seq<char>, input: Seq<char>) -> Parsed<u16> {
    if millis <= u16::MAX {
        Ok((millis as u16, rest))
    } else {
        Err(reading_range_fault(input))
    }
}

/// Decoding of a reading: a whole number of units, which may be followed by
/// a decimal point and one to three fractional digits.
pub open spec fn parse_reading(input: Seq<char>) -> Parsed<u16> {
    match parse_u16(input) {
        Err(detail) => Err(detail),
        Ok((whole, rest)) => match parse_literal(rest, "."@) {
            Err(_) => reading_of(whole as nat * 1000, rest, input),
            Ok((_, tail)) => {
                let digits = tail.take(digit_run(tail) as int);
                if 1 <= digits.len() <= 3 {
                    reading_of(
                        whole as nat * 1000 + fraction_millis(digits),
                        tail.skip(digits.len() as int),
                        input,
                    )
                } else {
                    Err(fraction_fault(digits))
                }
            },
        },
    }
}

/// The fault for a reading above 65.535.
fn reading_range_error(input: &str) -> (e: Error)
    ensures
        e matches Error::ResponseDecoding(m) && m@ == reading_range_fault(input@),
{
    Error::ResponseDecoding(
        String::from_str("Reading exceeds the range of 65.535: `").concat(input).concat("`"),
    )
}

/// Decoding the wire text of a reading, followed by input that does not
/// start with a digit, gives the reading back and leaves that input over.
pub proof fn lemma_reading_round_trip(millis: u16, rest: Seq<char>)
    requires
        rest.len() > 0 ==> !is_digit(rest[0]),
    ensures
        parse_reading(reading_text(millis) + rest) == Ok::<(u16, Seq<char>), Seq<char>>(
            (millis, rest),
        ),
{
    reveal_strlit(".");
    let whole = decimal_text(millis as nat / 1000);
    let fraction = three_digits(millis as nat % 1000);
    let input = reading_text(millis) + rest;
    let after_whole = "."@ + fraction + rest;
    let tail = fraction + rest;
    text::lemma_decimal_text(millis as nat / 1000);
    text::lemma_three_digits(millis as nat % 1000);
    assert(input =~= whole + after_whole);
    text::lemma_run_len_concat(whole, after_whole, |c: char| is_digit(c));
    assert(input.take(whole.len() as int) =~= whole);
    assert(input.skip(whole.len() as int) =~= after_whole);
    assert(parse_u16(input) == Ok::<(u16, Seq<char>), Seq<char>>(
        ((millis / 1000) as u16, after_whole),
    ));
    assert(after_whole =~= "."@ + tail);
    lemma_literal_then("."@, tail);
    text::lemma_run_len_concat(fraction, rest, |c: char| is_digit(c));
    assert(tail.take(fraction.len() as int) =~= fraction);
    assert(tail.skip(fraction.len() as int) =~= rest);
}

/// The request to measure a quantity on a channel, or on the selected channel
/// where none is given.
#[derive(Debug, Clone, Copy, PartialEq, Eq, Structural)]
pub struct MeasureRequest {
    pub quantity: Quantity,
    pub channel: Option<Channel>,
}

impl ScpiSerialize for MeasureRequest {
    open spec fn wire(&self) -> Seq<char> {
        "MEASure:"@ + self.quantity.wire() + "? "@ + self.channel.wire()
    }

    fn serialize(&self, out: &mut String) {
        out.append("MEASure:");
        self.quantity.serialize(out);
        out.append("? ");
        self.channel.serialize(out);
        assert(out@ =~= old(out)@ + self.wire());
    }
}

impl ScpiRequest for MeasureRequest {
    type Response = MeasureResponse;
}

/// A measured value.
#[derive(Debug, Clone, Copy, PartialEq, Eq, Structural)]
pub struct MeasureResponse(pub Reading);

impl View for MeasureResponse {
    type V = u16;

    /// The measured value in thousandths.
    open spec fn view(&self) -> u16 {
        self.0@
    }
}

impl ScpiDeserialize for MeasureResponse {
    /// A reading and the end of the line.
    open spec fn parse(input: Seq<char>) -> Parsed<u16> {
        then_literal(parse_reading(input), "\n"@)
    }

    fn deserialize(input: &mut &str) -> (r: Result<Self, Error>) {
        let start: &str = *input;
        let value = match Reading::deserialize(input) {
            Ok(value) => value,
            Err(e) => {
                return Err(e);
            },
        };
        match match_or_rewind(input, "\n", start) {
            Ok(()) => Ok(MeasureResponse(value)),
            Err(e) => Err(e),
        }
    }
}

/// A quantity that can be limited.
#[derive(Debug, Clone, Copy, PartialEq, Eq, Structural)]
pub enum LimitQuantity {
    Current,
    Voltage,
}

impl LimitQuantity {
    /// This quantity among those that can be measured.
    pub open spec fn quantity(&self) -> Quantity {
        match self {
            LimitQuantity::Current => Quantity::Current,
            LimitQuantity::Voltage => Quantity::Voltage,
        }
    }
}

impl ScpiSerialize for LimitQuantity {
    /// A limited quantity is written as the measured quantity of its name.
    open spec fn wire(&self) -> Seq<char> {
        self.quantity().wire()
    }

    fn serialize(&self, out: &mut String) {
        Quantity::from(self).serialize(out);
    }
}

/// The wire text that selects a channel in front of a request: the channel
/// and a colon, or nothing where no channel is given.
pub open spec fn channel_prefix(channel: Option<Channel>) -> Seq<char> {
    match channel {
        Some(channel) => channel.wire() + ":"@,
        None => Seq::empty(),
    }
}

/// Appends the wire text that selects `channel` in front of a request.
fn push_channel_prefix(channel: &Option<Channel>, out: &mut String)
    ensures
        final(out)@ == old(out)@ + channel_prefix(*channel),
{
    channel.serialize(out);
    if channel.is_some() {
        out.append(":");
    }
    assert(out@ =~= old(out)@ + channel_prefix(*channel));
}

/// The request to limit a quantity on a channel, or on the selected channel
/// where none is given.
#[derive(Debug, Clone, Copy, PartialEq, Eq, Structural)]
pub struct SetLimitRequest {
    pub quantity: LimitQuantity,
    pub value: Reading,
    pub channel: Option<Channel>,
}

impl ScpiSerialize for SetLimitRequest {
    open spec fn wire(&self) -> Seq<char> {
        channel_prefix(self.channel) + self.quantity.wire() + " "@ + self.value.wire()
    }

    fn serialize(&self, out: &mut String) {
        push_channel_prefix(&self.channel, out);
        self.quantity.serialize(out);
        out.append(" ");
        self.value.serialize(out);
        assert(out@ =~= old(out)@ + self.wire());
    }
}

impl ScpiRequest for SetLimitRequest {
    type Response = EmptyResponse;
}

/// A request to limit a quantity that names no channel is written without a
/// channel and without a colon; one that names a channel starts with the
/// channel and a colon.
pub proof fn lemma_limit_channel_prefix(request: SetLimitRequest)
    ensures
        request.channel is None ==> request.wire() == request.quantity.wire() + " "@
            + request.value.wire(),
        request.channel matches Some(channel) ==> request.wire() == channel.wire() + ":"@
            + request.quantity.wire() + " "@ + request.value.wire(),
{
    match request.channel {
        None => {
            assert(request.wire() =~= request.quantity.wire() + " "@ + request.value.wire());
        },
        Some(channel) => {
            assert(request.wire() =~= channel.wire() + ":"@ + request.quantity.wire() + " "@
                + request.value.wire());
        },
    }
}

/// The request for the limit of a quantity on a channel, or on the selected
/// channel where none is given.
#[derive(Debug, Clone, Copy, PartialEq, Eq, Structural)]
pub struct GetLimitRequest {
    pub quantity: LimitQuantity,
    pub channel: Option<Channel>,
}

impl ScpiSerialize for GetLimitRequest {
    open spec fn wire(&self) -> Seq<char> {
        channel_prefix(self.channel) + self.quantity.wire() + "?"@
    }

    fn serialize(&self, out: &mut String) {
        push_channel_prefix(&self.channel, out);
        self.quantity.serialize(out);
        out.append("?");
        assert(out@ =~= old(out)@ + self.wire());
    }
}

impl ScpiRequest for GetLimitRequest {
    type Response = GetLimitResponse;
}

/// The limit of a quantity.
#[derive(Debug, Clone, Copy, PartialEq, Eq, Structural)]
pub struct GetLimitResponse(pub Reading);

impl View for GetLimitResponse {
    type V = u16;

    /// The limit in thousandths.
    open spec fn view(&self) -> u16 {
        self.0@
    }
}

impl ScpiDeserialize for GetLimitResponse {
    /// A reading and the end of the line.
    open spec fn parse(input: Seq<char>) -> Parsed<u16> {
        then_literal(parse_reading(input), "\n"@)
    }

    fn deserialize(input: &mut &str) -> (r: Result<Self, Error>) {
        let start: &str = *input;
        let value = match Reading::deserialize(input) {
            Ok(value) => value,
            Err(e) => {
                return Err(e);
            },
        };
        match match_or_rewind(input, "\n", start) {
            Ok(()) => Ok(GetLimitResponse(value)),
            Err(e) => Err(e),
        }
    }
}

/// The state of something that is either on or off.
#[derive(Debug, Clone, Copy, PartialEq, Eq, Structural)]
pub enum State {
    On,
    Off,
}

impl View for State {
    type V = State;

    open spec fn view(&self) -> State {
        *self
    }
}

impl ScpiSerialize for State {
    open spec fn wire(&self) -> Seq<char> {
        match self {
            State::On => "ON"@,
            State::Off => "OFF"@,
        }
    }

    fn serialize(&self, out: &mut String) {
        match self {
            State::On => out.append("ON"),
            State::Off => out.append("OFF"),
        }
    }
}

impl State {
    /// The states with their literals, in the order in which decoding tries
    /// them.
    pub open spec fn literals() -> Seq<(State, Seq<char>)> {
        seq![(State::On, "ON"@), (State::Off, "OFF"@)]
    }
}

impl ScpiDeserialize for State {
    /// The first literal of the table that the input starts with decides.
    open spec fn parse(input: Seq<char>) -> Parsed<State> {
        parse_token(input, "State"@, State::literals(), 0)
    }

    fn deserialize(input: &mut &str) -> (r: Result<Self, Error>) {
        let table = [(State::On, "ON"), (State::Off, "OFF")];
        assert(token_table(table@) =~= State::literals());
        decode_token(input, "State", table.as_slice())
    }
}

impl ScpiCodec for State {
    open spec fn valid(&self) -> bool {
        true
    }

    open spec fn delimits(rest: Seq<char>) -> bool {
        true
    }

    proof fn round_trip(&self, rest: Seq<char>) {
        reveal_strlit("ON");
        reveal_strlit("OFF");
        reveal_with_fuel(parse_token, 3);
        lemma_literal_then(self.wire(), rest);
        let input = self.wire() + rest;
        assert(input[1] == self.wire()[1]);
    }
}

impl From<bool> for State {
    fn from(value: bool) -> (state: State) {
        match value {
            true => State::On,
            false => State::Off,
        }
    }
}

impl FromSpecImpl<bool> for State {
    open spec fn obeys_from_spec() -> bool {
        true
    }

    /// `true` is on, `false` is off.
    open spec fn from_spec(value: bool) -> State {
        state_of(value)
    }
}

impl core::ops::Neg for State {
    type Output = State;

    fn neg(self) -> (other: State) {
        match self {
            State::On => State::Off,
            State::Off => State::On,
        }
    }
}

impl NegSpecImpl for State {
    open spec fn obeys_neg_spec() -> bool {
        true
    }

    open spec fn neg_req(self) -> bool {
        true
    }

    /// The other state.
    open spec fn neg_spec(self) -> State {
        match self {
            State::On => State::Off,
            State::Off => State::On,
        }
    }
}

impl From<State> for bool {
    fn from(value: State) -> (on: bool) {
        match value {
            State::On => true,
            State::Off => false,
        }
    }
}

impl FromSpecImpl<State> for bool {
    open spec fn obeys_from_spec() -> bool {
        true
    }

    /// On is `true`, off is `false`.
    open spec fn from_spec(value: State) -> bool {
        value == State::On
    }
}

/// One of the three outputs that can be switched. The third has a fixed
/// voltage and can be neither measured nor limited.
#[derive(Debug, Clone, Copy, PartialEq, Eq, Structural)]
pub enum OutputChannel {
    One,
    Two,
    Three,
}

impl View for OutputChannel {
    type V = OutputChannel;

    open spec fn view(&self) -> OutputChannel {
        *self
    }
}

impl ScpiSerialize for OutputChannel {
    open spec fn wire(&self) -> Seq<char> {
        match self {
            OutputChannel::One => "CH1"@,
            OutputChannel::Two => "CH2"@,
            OutputChannel::Three => "CH3"@,
        }
    }

    fn serialize(&self, out: &mut String) {
        match self {
            OutputChannel::One => out.append("CH1"),
            OutputChannel::Two => out.append("CH2"),
            OutputChannel::Three => out.append("CH3"),
        }
    }
}

impl OutputChannel {
    /// The outputs with their literals, in the order in which decoding tries
    /// them.
    pub open spec fn literals() -> Seq<(OutputChannel, Seq<char>)> {
        seq![
            (OutputChannel::One, "CH1"@),
            (OutputChannel::Two, "CH2"@),
            (OutputChannel::Three, "CH3"@),
        ]
    }
}

impl ScpiDeserialize for OutputChannel {
    /// The first literal of the table that the input starts with decides.
    open spec fn parse(input: Seq<char>) -> Parsed<OutputChannel> {
        parse_token(input, "OutputChannel"@, OutputChannel::literals(), 0)
    }

    fn deserialize(input: &mut &str) -> (r: Result<Self, Error>) {
        let table = [
            (OutputChannel::One, "CH1"),
            (OutputChannel::Two, "CH2"),
            (OutputChannel::Three, "CH3"),
        ];
        assert(token_table(table@) =~= OutputChannel::literals());
        decode_token(input, "OutputChannel", table.as_slice())
    }
}

impl ScpiCodec for OutputChannel {
    open spec fn valid(&self) -> bool {
        true
    }

    open spec fn delimits(rest: Seq<char>) -> bool {
        true
    }

    proof fn round_trip(&self, rest: Seq<char>) {
        reveal_strlit("CH1");
        reveal_strlit("CH2");
        reveal_strlit("CH3");
        reveal_with_fuel(parse_token, 4);
        lemma_literal_then(self.wire(), rest);
        let input = self.wire() + rest;
        assert(input[2] == self.wire()[2]);
    }
}

impl From<Channel> for OutputChannel {
    fn from(value: Channel) -> (output: OutputChannel) {
        match value {
            Channel::One => OutputChannel::One,
            Channel::Two => OutputChannel::Two,
        }
    }
}

impl FromSpecImpl<Channel> for OutputChannel {
    open spec fn obeys_from_spec() -> bool {
        true
    }

    /// Each channel is the output of the same number.
    open spec fn from_spec(value: Channel) -> OutputChannel {
        match value {
            Channel::One => OutputChannel::One,
            Channel::Two => OutputChannel::Two,
        }
    }
}

/// The request to switch an output on or off.
#[derive(Debug, Clone, Copy, PartialEq, Eq, Structural)]
pub struct SetOutputStateRequest {
    pub channel: OutputChannel,
    pub state: State,
}

impl ScpiSerialize for SetOutputStateRequest {
    open spec fn wire(&self) -> Seq<char> {
        "OUTPut "@ + self.channel.wire() + ","@ + self.state.wire()
    }

    fn serialize(&self, out: &mut String) {
        out.append("OUTPut ");
        self.channel.serialize(out);
        out.append(",");
        self.state.serialize(out);
        assert(out@ =~= old(out)@ + self.wire());
    }
}

impl ScpiRequest for SetOutputStateRequest {
    type Response = EmptyResponse;
}

/// How the two adjustable channels work together.
#[derive(Debug, Clone, Copy, PartialEq, Eq, Structural)]
pub enum OperationMode {
    Independent,
    Series,
    Parallel,
}

impl View for OperationMode {
    type V = OperationMode;

    open spec fn view(&self) -> OperationMode {
        *self
    }
}

impl ScpiSerialize for OperationMode {
    open spec fn wire(&self) -> Seq<char> {
        match self {
            OperationMode::Independent => "0"@,
            OperationMode::Series => "1"@,
            OperationMode::Parallel => "2"@,
        }
    }

    fn serialize(&self, out: &mut String) {
        match self {
            OperationMode::Independent => out.append("0"),
            OperationMode::Series => out.append("1"),
            OperationMode::Parallel => out.append("2"),
        }
    }
}

impl OperationMode {
    /// The operation modes with their literals, in the order in which decoding tries
    /// them.
    pub open spec fn literals() -> Seq<(OperationMode, Seq<char>)> {
        seq![
            (OperationMode::Independent, "0"@),
            (OperationMode::Series, "1"@),
            (OperationMode::Parallel, "2"@),
        ]
    }
}

impl ScpiDeserialize for OperationMode {
    /// The first literal of the table that the input starts with decides.
    open spec fn parse(input: Seq<char>) -> Parsed<OperationMode> {
        parse_token(input, "OperationMode"@, OperationMode::literals(), 0)
    }

    fn deserialize(input: &mut &str) -> (r: Result<Self, Error>) {
        let table = [
            (OperationMode::Independent, "0"),
            (OperationMode::Series, "1"),
            (OperationMode::Parallel, "2"),
        ];
        assert(token_table(table@) =~= OperationMode::literals());
        decode_token(input, "OperationMode", table.as_slice())
    }
}

impl ScpiCodec for OperationMode {
    open spec fn valid(&self) -> bool {
        true
    }

    open spec fn delimits(rest: Seq<char>) -> bool {
        true
    }

    proof fn round_trip(&self, rest: Seq<char>) {
        reveal_strlit("0");
        reveal_strlit("1");
        reveal_strlit("2");
        reveal_with_fuel(parse_token, 4);
        lemma_literal_then(self.wire(), rest);
        let input = self.wire() + rest;
        assert(input[0] == self.wire()[0]);
    }
}

/// The request to select the operation mode.
#[derive(Debug, Clone, Copy, PartialEq, Eq, Structural)]
pub struct SetOperationModeRequest {
    pub mode: OperationMode,
}

impl ScpiSerialize for SetOperationModeRequest {
    open spec fn wire(&self) -> Seq<char> {
        "OUTPut:TRACK "@ + self.mode.wire()
    }

    fn serialize(&self, out: &mut String) {
        out.append("OUTPut:TRACK ");
        self.mode.serialize(out);
        assert(out@ =~= old(out)@ + self.wire());
    }
}

impl ScpiRequest for SetOperationModeRequest {
    type Response = EmptyResponse;
}

/// The request to switch the waveform display of a channel on or off.
#[derive(Debug, Clone, Copy, PartialEq, Eq, Structural)]
pub struct WaveformDisplayRequest {
    pub channel: Channel,
    pub state: State,
}

impl ScpiSerialize for WaveformDisplayRequest {
    open spec fn wire(&self) -> Seq<char> {
        "OUTPut:WAVE "@ + self.channel.wire() + ","@ + self.state.wire()
    }

    fn serialize(&self, out: &mut String) {
        out.append("OUTPut:WAVE ");
        self.channel.serialize(out);
        out.append(",");
        self.state.serialize(out);
        assert(out@ =~= old(out)@ + self.wire());
    }
}

impl ScpiRequest for WaveformDisplayRequest {
    type Response = EmptyResponse;
}

/// One of the five groups of timing parameters of a channel.
#[derive(Debug, Clone, Copy, PartialEq, Eq, Structural)]
pub enum TimingGroup {
    One,
    Two,
    Three,
    Four,
    Five,
}

impl View for TimingGroup {
    type V = TimingGroup;

    open spec fn view(&self) -> TimingGroup {
        *self
    }
}

impl ScpiSerialize for TimingGroup {
    open spec fn wire(&self) -> Seq<char> {
        match self {
            TimingGroup::One => "1"@,
            TimingGroup::Two => "2"@,
            TimingGroup::Three => "3"@,
            TimingGroup::Four => "4"@,
            TimingGroup::Five => "5"@,
        }
    }

    fn serialize(&self, out: &mut String) {
        match self {
            TimingGroup::One => out.append("1"),
            TimingGroup::Two => out.append("2"),
            TimingGroup::Three => out.append("3"),
            TimingGroup::Four => out.append("4"),
            TimingGroup::Five => out.append("5"),
        }
    }
}

impl TimingGroup {
    /// The timing groups with their literals, in the order in which decoding tries
    /// them.
    pub open spec fn literals() -> Seq<(TimingGroup, Seq<char>)> {
        seq![
            (TimingGroup::One, "1"@),
            (TimingGroup::Two, "2"@),
            (TimingGroup::Three, "3"@),
            (TimingGroup::Four, "4"@),
            (TimingGroup::Five, "5"@),
        ]
    }
}

impl ScpiDeserialize for TimingGroup {
    /// The first literal of the table that the input starts with decides.
    open spec fn parse(input: Seq<char>) -> Parsed<TimingGroup> {
        parse_token(input, "TimingGroup"@, TimingGroup::literals(), 0)
    }

    fn deserialize(input: &mut &str) -> (r: Result<Self, Error>) {
        let table = [
            (TimingGroup::One, "1"),
            (TimingGroup::Two, "2"),
            (TimingGroup::Three, "3"),
            (TimingGroup::Four, "4"),
            (TimingGroup::Five, "5"),
        ];
        assert(token_table(table@) =~= TimingGroup::literals());
        decode_token(input, "TimingGroup", table.as_slice())
    }
}

impl ScpiCodec for TimingGroup {
    open spec fn valid(&self) -> bool {
        true
    }

    open spec fn delimits(rest: Seq<char>) -> bool {
        true
    }

    proof fn round_trip(&self, rest: Seq<char>) {
        reveal_strlit("1");
        reveal_strlit("2");
        reveal_strlit("3");
        reveal_strlit("4");
        reveal_strlit("5");
        reveal_with_fuel(parse_token, 6);
        lemma_literal_then(self.wire(), rest);
        let input = self.wire() + rest;
        assert(input[0] == self.wire()[0]);
    }
}

/// The longest time interval that the device accepts, in seconds.
pub const MAX_TIME_INTERVAL: u16 = 10000;

/// A time interval in whole seconds, at most [`MAX_TIME_INTERVAL`].
#[derive(Debug, Clone, Copy, PartialEq, Eq, Structural)]
pub struct TimeInterval(u16);

impl View for TimeInterval {
    type V = u16;

    /// The number of seconds.
    closed spec fn view(&self) -> u16 {
        self.0
    }
}

impl TimeInterval {
    #[verifier::type_invariant]
    spec fn in_range(self) -> bool {
        self.0 <= MAX_TIME_INTERVAL
    }

    /// The interval of `seconds` seconds. An interval above
    /// [`MAX_TIME_INTERVAL`] is refused, so that none can be sent.
    pub fn new(seconds: u16) -> (r: Result<TimeInterval, Error>)
        ensures
            match r {
                Ok(interval) => seconds <= MAX_TIME_INTERVAL && interval@ == seconds,
                Err(e) => seconds > MAX_TIME_INTERVAL && (e matches Error::Other(m) && m@
                    == time_interval_fault(seconds)),
            },
    {
        if seconds > MAX_TIME_INTERVAL {
            Err(Error::Other(time_interval_detail(seconds)))
        } else {
            Ok(TimeInterval(seconds))
        }
    }

    /// The number of seconds.
    pub fn get_seconds(&self) -> (seconds: u16)
        ensures
            seconds == self@,
            seconds <= MAX_TIME_INTERVAL,
    {
        proof {
            use_type_invariant(self);
        }
        self.0
    }
}

impl ScpiSerialize for TimeInterval {
    open spec fn wire(&self) -> Seq<char> {
        decimal_text(self@ as nat)
    }

    /// What is written never exceeds [`MAX_TIME_INTERVAL`].
    fn serialize(&self, out: &mut String)
        ensures
            self@ <= MAX_TIME_INTERVAL,
    {
        proof {
            use_type_invariant(self);
        }
        text::push_decimal(self.0 as u64, out);
    }
}

impl ScpiDeserialize for TimeInterval {
    open spec fn parse(input: Seq<char>) -> Parsed<u16> {
        parse_time_interval(input)
    }

    fn deserialize(input: &mut &str) -> (r: Result<Self, Error>) {
        let start: &str = *input;
        match u16::deserialize(input) {
            Ok(seconds) => {
                if seconds > MAX_TIME_INTERVAL {
                    *input = start;
                    Err(Error::ResponseDecoding(time_interval_detail(seconds)))
                } else {
                    Ok(TimeInterval(seconds))
                }
            },
            Err(e) => Err(e),
        }
    }
}

impl ScpiCodec for TimeInterval {
    open spec fn valid(&self) -> bool {
        self@ <= MAX_TIME_INTERVAL
    }

    /// What follows a time interval must not start with a digit.
    open spec fn delimits(rest: Seq<char>) -> bool {
        rest.len() > 0 ==> !is_digit(rest[0])
    }

    proof fn round_trip(&self, rest: Seq<char>) {
        let digits = decimal_text(self@ as nat);
        let input = digits + rest;
        text::lemma_decimal_text(self@ as nat);
        text::lemma_run_len_concat(digits, rest, |c: char| is_digit(c));
        assert(input.take(digits.len() as int) =~= digits);
        assert(input.skip(digits.len() as int) =~= rest);
    }
}

/// The detail of the fault for a time interval that is too long.
pub open spec fn time_interval_fault(seconds: u16) -> Seq<char> {
    "Time interval value "@ + decimal_text(seconds as nat)
        + " exceeds accepted range for SPD3303X (max. 10000)"@
}

/// The detail of the fault for a time interval that is too long.
fn time_interval_detail(seconds: u16) -> (detail: String)
    ensures
        detail@ == time_interval_fault(seconds),
{
    let mut detail = String::from_str("Time interval value ");
    text::push_decimal(seconds as u64, &mut detail);
    detail.concat(" exceeds accepted range for SPD3303X (max. 10000)")
}

/// Decoding of a time interval: a number of seconds, which must not exceed
/// [`MAX_TIME_INTERVAL`].
pub open spec fn parse_time_interval(input: Seq<char>) -> Parsed<u16> {
    match parse_u16(input) {
        Err(detail) => Err(detail),
        Ok((seconds, rest)) => if seconds <= MAX_TIME_INTERVAL {
            Ok((seconds, rest))
        } else {
            Err(time_interval_fault(seconds))
        },
    }
}

/// The request to set the voltage, current and duration of one timing group
/// of a channel.
#[derive(Debug, Clone, Copy, PartialEq, Eq, Structural)]
pub struct SetTimingParametersRequest {
    pub channel: Channel,
    pub group: TimingGroup,
    pub voltage: Reading,
    pub current: Reading,
    pub time: TimeInterval,
}

impl ScpiSerialize for SetTimingParametersRequest {
    open spec fn wire(&self) -> Seq<char> {
        "TIMEr:SET "@
            + self.channel.wire()
            + ","@
            + self.group.wire()
            + ","@
            + self.voltage.wire()
            + ","@
            + self.current.wire()
            + ","@
            + self.time.wire()
    }

    fn serialize(&self, out: &mut String) {
        out.append("TIMEr:SET ");
        self.channel.serialize(out);
        out.append(",");
        self.group.serialize(out);
        out.append(",");
        self.voltage.serialize(out);
        out.append(",");
        self.current.serialize(out);
        out.append(",");
        self.time.serialize(out);
        assert(out@ =~= old(out)@ + self.wire());
    }
}

impl ScpiRequest for SetTimingParametersRequest {
    type Response = EmptyResponse;
}

/// The request for the voltage, current and duration of one timing group of
/// a channel.
#[derive(Debug, Clone, Copy, PartialEq, Eq, Structural)]
pub struct GetTimingParametersRequest {
    pub channel: Channel,
    pub group: TimingGroup,
}

impl ScpiSerialize for GetTimingParametersRequest {
    open spec fn wire(&self) -> Seq<char> {
        "TIMEr:SET? "@ + self.channel.wire() + ","@ + self.group.wire()
    }

    fn serialize(&self, out: &mut String) {
        out.append("TIMEr:SET? ");
        self.channel.serialize(out);
        out.append(",");
        self.group.serialize(out);
        assert(out@ =~= old(out)@ + self.wire());
    }
}

impl ScpiRequest for GetTimingParametersRequest {
    type Response = GetTimingParametersResponse;
}

/// The voltage, current and duration of a timing group.
#[derive(Debug, Clone, Copy, PartialEq, Eq, Structural)]
pub struct GetTimingParametersResponse {
    pub voltage: Reading,
    pub current: Reading,
    pub time: Reading,
}

impl View for GetTimingParametersResponse {
    type V = TimingParametersView;

    open spec fn view(&self) -> TimingParametersView {
        TimingParametersView { voltage: self.voltage@, current: self.current@, time: self.time@ }
    }
}

impl ScpiDeserialize for GetTimingParametersResponse {
    open spec fn parse(input: Seq<char>) -> Parsed<TimingParametersView> {
        parse_timing_parameters(input)
    }

    fn deserialize(input: &mut &str) -> (r: Result<Self, Error>) {
        let start: &str = *input;
        let voltage = match read_reading_then(input, ",", start) {
            Ok(value) => value,
            Err(e) => {
                return Err(e);
            },
        };
        let current = match read_reading_then(input, ",", start) {
            Ok(value) => value,
            Err(e) => {
                return Err(e);
            },
        };
        let time = match Reading::deserialize(input) {
            Ok(value) => value,
            Err(e) => {
                *input = start;
                return Err(e);
            },
        };
        skip_literal(input, "\n");
        Ok(GetTimingParametersResponse { voltage, current, time })
    }
}

/// The voltage, current and duration of a timing group, each in thousandths
/// of its unit.
pub struct TimingParametersView {
    pub voltage: u16,
    pub current: u16,
    pub time: u16,
}

/// Decoding of timing parameters: three readings with commas between them,
/// and the line feed that ends the line where one follows.
pub open spec fn parse_timing_parameters(input: Seq<char>) -> Parsed<TimingParametersView> {
    match then_literal(parse_reading(input), ","@) {
        Err(detail) => Err(detail),
        Ok((voltage, after_voltage)) => match then_literal(parse_reading(after_voltage), ","@) {
            Err(detail) => Err(detail),
            Ok((current, after_current)) => match then_literal_if_present(
                parse_reading(after_current),
                "\n"@,
            ) {
                Err(detail) => Err(detail),
                Ok((time, rest)) => Ok((TimingParametersView { voltage, current, time }, rest)),
            },
        },
    }
}

/// A reading followed by a literal that starts with no digit, and by more
/// input, is decoded as that reading and leaves over what follows the literal.
pub proof fn lemma_reading_then_literal(millis: u16, literal: Seq<char>, rest: Seq<char>)
    requires
        literal.len() > 0,
        !is_digit(literal[0]),
    ensures
        then_literal(parse_reading(reading_text(millis) + (literal + rest)), literal) == Ok::<
            (u16, Seq<char>),
            Seq<char>,
        >((millis, rest)),
{
    lemma_reading_round_trip(millis, literal + rest);
    lemma_literal_then(literal, rest);
}

/// Timing parameters are read back from three readings with commas between
/// them, with or without the line feed that ends the line, and nothing is left
/// over of either.
pub proof fn lemma_timing_parameters(voltage: u16, current: u16, time: u16)
    ensures
        parse_timing_parameters(
            reading_text(voltage) + (","@ + (reading_text(current) + (","@ + reading_text(time)))),
        ) == Ok::<(TimingParametersView, Seq<char>), Seq<char>>(
            (TimingParametersView { voltage, current, time }, Seq::empty()),
        ),
        parse_timing_parameters(
            reading_text(voltage) + (","@ + (reading_text(current) + (","@ + (reading_text(time)
                + "\n"@)))),
        ) == Ok::<(TimingParametersView, Seq<char>), Seq<char>>(
            (TimingParametersView { voltage, current, time }, Seq::empty()),
        ),
{
    reveal_strlit(",");
    reveal_strlit("\n");
    let bare = reading_text(time);
    let ended = reading_text(time) + "\n"@;
    lemma_reading_then_literal(voltage, ","@, reading_text(current) + (","@ + bare));
    lemma_reading_then_literal(current, ","@, bare);
    lemma_reading_then_literal(voltage, ","@, reading_text(current) + (","@ + ended));
    lemma_reading_then_literal(current, ","@, ended);
    assert(parse_reading(bare) == Ok::<(u16, Seq<char>), Seq<char>>((time, Seq::empty()))) by {
        lemma_reading_round_trip(time, Seq::empty());
        assert(bare + Seq::<char>::empty() =~= bare);
    }
    assert(parse_reading(ended) == Ok::<(u16, Seq<char>), Seq<char>>((time, "\n"@))) by {
        lemma_reading_round_trip(time, "\n"@);
    }
    assert(parse_literal("\n"@, "\n"@) == Ok::<((), Seq<char>), Seq<char>>(
        ((), Seq::empty()),
    )) by {
        lemma_literal_then("\n"@, Seq::empty());
        assert("\n"@ + Seq::<char>::empty() =~= "\n"@);
    }
}

/// Decodes a reading and the literal that must follow it. On failure the
/// cursor goes back to `start`, where the decoding in progress began.
fn read_reading_then<'a>(
    input: &mut &'a str,
    literal: &'static str,
    start: &'a str,
) -> (r: Result<Reading, Error>)
    ensures
        match then_literal(parse_reading(old(input)@), literal@) {
            Ok((millis, rest)) => (r matches Ok(x) && x@ == millis) && final(input)@ == rest,
            Err(detail) => final(input)@ == start@ && (r matches Err(Error::ResponseDecoding(m))
                && m@ == detail),
        },
{
    let value = match Reading::deserialize(input) {
        Ok(value) => value,
        Err(e) => {
            *input = start;
            return Err(e);
        },
    };
    match match_or_rewind(input, literal, start) {
        Ok(()) => Ok(value),
        Err(e) => Err(e),
    }
}

/// The request to switch the timer of a channel on or off.
#[derive(Debug, Clone, Copy, PartialEq, Eq, Structural)]
pub struct SetTimerStateRequest {
    pub channel: Channel,
    pub state: State,
}

impl ScpiSerialize for SetTimerStateRequest {
    open spec fn wire(&self) -> Seq<char> {
        "TIMEr "@ + self.channel.wire() + ","@ + self.state.wire()
    }

    fn serialize(&self, out: &mut String) {
        out.append("TIMEr ");
        self.channel.serialize(out);
        out.append(",");
        self.state.serialize(out);
        assert(out@ =~= old(out)@ + self.wire());
    }
}

impl ScpiRequest for SetTimerStateRequest {
    type Response = EmptyResponse;
}

/// The request for the error code and message of the device.
#[derive(Debug, Clone, Copy, PartialEq, Eq, Structural)]
pub struct SystemErrorRequest;

impl ScpiSerialize for SystemErrorRequest {
    open spec fn wire(&self) -> Seq<char> {
        "SYSTem:ERRor?"@
    }

    fn serialize(&self, out: &mut String) {
        out.append("SYSTem:ERRor?");
    }
}

impl ScpiRequest for SystemErrorRequest {
    type Response = SystemErrorResponse;
}

/// The error code and message of the device.
#[derive(Debug, Clone, PartialEq, Eq)]
pub struct SystemErrorResponse {
    pub content: String,
}

impl View for SystemErrorResponse {
    type V = Seq<char>;

    open spec fn view(&self) -> Seq<char> {
        self.content@
    }
}

impl ScpiDeserialize for SystemErrorResponse {
    /// The whole line, without the line feed that ends it.
    open spec fn parse(input: Seq<char>) -> Parsed<Seq<char>> {
        parse_until(input, '\n')
    }

    fn deserialize(input: &mut &str) -> (r: Result<Self, Error>) {
        match read_all(input) {
            Ok(content) => Ok(SystemErrorResponse { content }),
            Err(e) => Err(e),
        }
    }
}

/// The request for the software version of the device.
#[derive(Debug, Clone, Copy, PartialEq, Eq, Structural)]
pub struct SystemVersionRequest;

impl ScpiSerialize for SystemVersionRequest {
    open spec fn wire(&self) -> Seq<char> {
        "SYSTem:VERSion?"@
    }

    fn serialize(&self, out: &mut String) {
        out.append("SYSTem:VERSion?");
    }
}

impl ScpiRequest for SystemVersionRequest {
    type Response = SystemVersionResponse;
}

/// The software version of the device.
#[derive(Debug, Clone, PartialEq, Eq)]
pub struct SystemVersionResponse {
    pub version: String,
}

impl View for SystemVersionResponse {
    type V = Seq<char>;

    open spec fn view(&self) -> Seq<char> {
        self.version@
    }
}

impl ScpiDeserialize for SystemVersionResponse {
    /// The whole line, without the line feed that ends it.
    open spec fn parse(input: Seq<char>) -> Parsed<Seq<char>> {
        parse_until(input, '\n')
    }

    fn deserialize(input: &mut &str) -> (r: Result<Self, Error>) {
        match read_all(input) {
            Ok(version) => Ok(SystemVersionResponse { version }),
            Err(e) => Err(e),
        }
    }
}

/// The request for the status of the device.
#[derive(Debug, Clone, Copy, PartialEq, Eq, Structural)]
pub struct SystemStatusRequest;

impl ScpiSerialize for SystemStatusRequest {
    open spec fn wire(&self) -> Seq<char> {
        "SYSTem:STATus?"@
    }

    fn serialize(&self, out: &mut String) {
        out.append("SYSTem:STATus?");
    }
}

impl ScpiRequest for SystemStatusRequest {
    type Response = SystemStatusResponse;
}

/// Whether a channel regulates its voltage or its current.
#[derive(Debug, Clone, Copy, PartialEq, Eq, Structural)]
pub enum ChannelMode {
    ConstantVoltage,
    ConstantCurrent,
}

impl From<bool> for ChannelMode {
    fn from(value: bool) -> (mode: ChannelMode) {
        match value {
            true => ChannelMode::ConstantCurrent,
            false => ChannelMode::ConstantVoltage,
        }
    }
}

impl FromSpecImpl<bool> for ChannelMode {
    open spec fn obeys_from_spec() -> bool {
        true
    }

    /// `true` is constant current, `false` constant voltage.
    open spec fn from_spec(value: bool) -> ChannelMode {
        channel_mode_of(value)
    }
}

/// What the display of a channel shows.
#[derive(Debug, Clone, Copy, PartialEq, Eq, Structural)]
pub enum DisplayMode {
    DigitalDisplay,
    WaveformDisplay,
}

impl From<bool> for DisplayMode {
    fn from(value: bool) -> (mode: DisplayMode) {
        match value {
            true => DisplayMode::WaveformDisplay,
            false => DisplayMode::DigitalDisplay,
        }
    }
}

impl FromSpecImpl<bool> for DisplayMode {
    open spec fn obeys_from_spec() -> bool {
        true
    }

    /// `true` is the waveform display, `false` the digital display.
    open spec fn from_spec(value: bool) -> DisplayMode {
        display_mode_of(value)
    }
}

/// The status of one channel.
#[derive(Debug, Clone, Copy, PartialEq, Eq, Structural)]
pub struct ChannelStatus {
    pub mode: ChannelMode,
    pub output: State,
    pub timer: State,
    pub display: DisplayMode,
}

/// The status of the device.
#[derive(Debug, Clone, Copy, PartialEq, Eq, Structural)]
pub struct SystemStatus {
    pub operation_mode: OperationMode,
    pub channel_one: ChannelStatus,
    pub channel_two: ChannelStatus,
}

impl SystemStatus {
    /// The status of `channel`.
    pub fn get(&self, channel: Channel) -> (status: &ChannelStatus)
        ensures
            *status == match channel {
                Channel::One => self.channel_one,
                Channel::Two => self.channel_two,
            },
    {
        match channel {
            Channel::One => &self.channel_one,
            Channel::Two => &self.channel_two,
        }
    }
}

/// Whether bit number `bit` of `value` is set, bit 0 being the least
/// significant.
pub open spec fn bit_is_set(value: u16, bit: u16) -> bool {
    (value >> bit) & 1 == 1
}

/// The channel mode that a status bit stands for.
pub open spec fn channel_mode_of(bit: bool) -> ChannelMode {
    if bit {
        ChannelMode::ConstantCurrent
    } else {
        ChannelMode::ConstantVoltage
    }
}

/// The state that a status bit stands for.
pub open spec fn state_of(bit: bool) -> State {
    if bit {
        State::On
    } else {
        State::Off
    }
}

/// The display mode that a status bit stands for.
pub open spec fn display_mode_of(bit: bool) -> DisplayMode {
    if bit {
        DisplayMode::WaveformDisplay
    } else {
        DisplayMode::DigitalDisplay
    }
}

/// The operation mode in bits 3 and 2 of the status word: `01` is
/// independent, `10` parallel, `11` series. `00` is no operation mode.
pub open spec fn operation_mode_of(value: u16) -> Option<OperationMode> {
    if bit_is_set(value, 3) {
        if bit_is_set(value, 2) {
            Some(OperationMode::Series)
        } else {
            Some(OperationMode::Parallel)
        }
    } else {
        if bit_is_set(value, 2) {
            Some(OperationMode::Independent)
        } else {
            None
        }
    }
}

/// The status that the status word `value` stands for, given its operation
/// mode. Bits 0 and 1 are the modes of the two channels, bits 4 and 5 their
/// outputs, bits 6 and 7 their timers, bits 8 and 9 their displays.
pub open spec fn status_of(value: u16, operation_mode: OperationMode) -> SystemStatus {
    SystemStatus {
        operation_mode,
        channel_one: ChannelStatus {
            mode: channel_mode_of(bit_is_set(value, 0)),
            output: state_of(bit_is_set(value, 4)),
            timer: state_of(bit_is_set(value, 6)),
            display: display_mode_of(bit_is_set(value, 8)),
        },
        channel_two: ChannelStatus {
            mode: channel_mode_of(bit_is_set(value, 1)),
            output: state_of(bit_is_set(value, 5)),
            timer: state_of(bit_is_set(value, 7)),
            display: display_mode_of(bit_is_set(value, 9)),
        },
    }
}

/// The detail of the fault for a status word without an operation mode.
pub open spec fn operation_mode_fault() -> Seq<char> {
    "Received unexpected, invalid bit pattern `00` for operation mode!"@
}

/// The detail of the fault for a status word that is not a number of at most
/// sixteen bits.
pub open spec fn hex_fault(digits: Seq<char>) -> Seq<char> {
    if digits.len() == 0 {
        "Failed to parse hex: cannot parse integer from empty string"@
    } else {
        "Failed to parse hex: number too large to fit in target type"@
    }
}

/// Decoding of the status word: `0x`, the longest run of hexadecimal digits,
/// which must not be empty and whose value must fit sixteen bits, and the end
/// of the line.
pub open spec fn parse_status_word(input: Seq<char>) -> Parsed<u16> {
    match parse_literal(input, "0x"@) {
        Err(detail) => Err(detail),
        Ok((_, after_prefix)) => {
            let digits = after_prefix.take(text::hex_run(after_prefix) as int);
            if digits.len() > 0 && text::hex_value(digits) <= u16::MAX {
                then_literal(
                    Ok((text::hex_value(digits) as u16, after_prefix.skip(digits.len() as int))),
                    "\n"@,
                )
            } else {
                Err(hex_fault(digits))
            }
        },
    }
}

/// The status word that the device answers with.
#[derive(Debug, Clone, Copy, PartialEq, Eq, Structural)]
pub struct SystemStatusResponse {
    pub value: u16,
}

impl View for SystemStatusResponse {
    type V = u16;

    /// The status word.
    open spec fn view(&self) -> u16 {
        self.value
    }
}

impl SystemStatusResponse {
    /// Whether bit number `bit` of the status word is set.
    pub fn read_bit(&self, bit: usize) -> (set: bool)
        requires
            bit < 16,
        ensures
            set == bit_is_set(self.value, bit as u16),
    {
        let value: u16 = self.value;
        let shift: u16 = bit as u16;
        let mask: u16 = 1u16 << shift;
        assert(((1u16 << shift) & value > 0) == ((value >> shift) & 1 == 1)) by (bit_vector)
            requires
                shift < 16,
        ;
        (mask & value) > 0
    }

    /// The operation mode in the status word. A status word without one is
    /// a decoding fault.
    pub fn decode_operation_mode(&self) -> (r: Result<OperationMode, Error>)
        ensures
            match operation_mode_of(self.value) {
                Some(mode) => r == Ok::<OperationMode, Error>(mode),
                None => r matches Err(Error::ResponseDecoding(m)) && m@ == operation_mode_fault(),
            },
    {
        let value: u16 = self.value;
        let bits: u16 = value & 0b1100;
        assert((value & 0b1100 == 0b0100) == (((value >> 2) & 1 == 1) && !((value >> 3) & 1 == 1)))
            by (bit_vector);
        assert((value & 0b1100 == 0b1000) == (!((value >> 2) & 1 == 1) && ((value >> 3) & 1 == 1)))
            by (bit_vector);
        assert((value & 0b1100 == 0b1100) == (((value >> 2) & 1 == 1) && ((value >> 3) & 1 == 1)))
            by (bit_vector);
        if bits == 0b0100 {
            Ok(OperationMode::Independent)
        } else if bits == 0b1000 {
            Ok(OperationMode::Parallel)
        } else if bits == 0b1100 {
            Ok(OperationMode::Series)
        } else {
            Err(
                Error::ResponseDecoding(
                    String::from_str(
                        "Received unexpected, invalid bit pattern `00` for operation mode!",
                    ),
                ),
            )
        }
    }

    /// The status that the status word stands for. A status word without an
    /// operation mode is a decoding fault.
    pub fn decode(&self) -> (r: Result<SystemStatus, Error>)
        ensures
            match operation_mode_of(self.value) {
                Some(mode) => r == Ok::<SystemStatus, Error>(status_of(self.value, mode)),
                None => r matches Err(Error::ResponseDecoding(m)) && m@ == operation_mode_fault(),
            },
    {
        let operation_mode = match self.decode_operation_mode() {
            Ok(mode) => mode,
            Err(e) => {
                return Err(e);
            },
        };
        Ok(
            SystemStatus {
                operation_mode,
                channel_one: ChannelStatus {
                    mode: ChannelMode::from(self.read_bit(0)),
                    output: State::from(self.read_bit(4)),
                    timer: State::from(self.read_bit(6)),
                    display: DisplayMode::from(self.read_bit(8)),
                },
                channel_two: ChannelStatus {
                    mode: ChannelMode::from(self.read_bit(1)),
                    output: State::from(self.read_bit(5)),
                    timer: State::from(self.read_bit(7)),
                    display: DisplayMode::from(self.read_bit(9)),
                },
            },
        )
    }
}

impl ScpiDeserialize for SystemStatusResponse {
    open spec fn parse(input: Seq<char>) -> Parsed<u16> {
        parse_status_word(input)
    }

    fn deserialize(input: &mut &str) -> (r: Result<Self, Error>) {
        let start: &str = *input;
        match match_literal(input, "0x") {
            Ok(()) => {},
            Err(e) => {
                return Err(e);
            },
        }
        let digits = read_hex_digits(input);
        let value = match text::hex_of(digits) {
            Some(value) => value,
            None => {
                *input = start;
                let detail = if digits.unicode_len() == 0 {
                    "Failed to parse hex: cannot parse integer from empty string"
                } else {
                    "Failed to parse hex: number too large to fit in target type"
                };
                return Err(Error::ResponseDecoding(String::from_str(detail)));
            },
        };
        match match_or_rewind(input, "\n", start) {
            Ok(()) => Ok(SystemStatusResponse { value }),
            Err(e) => Err(e),
        }
    }
}

/// An address of the fourth version of the Internet Protocol: four numbers of
/// eight bits each.
#[derive(Debug, Clone, Copy, PartialEq, Eq, Structural)]
pub struct Ipv4Addr {
    pub a: u8,
    pub b: u8,
    pub c: u8,
    pub d: u8,
}

impl Ipv4Addr {
    /// The address `a.b.c.d`.
    pub fn new(a: u8, b: u8, c: u8, d: u8) -> (address: Ipv4Addr)
        ensures
            address == (Ipv4Addr { a, b, c, d }),
    {
        Ipv4Addr { a, b, c, d }
    }

    /// The four numbers of the address, in the order in which they are
    /// written.
    pub fn octets(&self) -> (octets: [u8; 4])
        ensures
            octets@ == seq![self.a, self.b, self.c, self.d],
    {
        let octets = [self.a, self.b, self.c, self.d];
        assert(octets@ =~= seq![self.a, self.b, self.c, self.d]);
        octets
    }
}

impl View for Ipv4Addr {
    type V = Ipv4Addr;

    open spec fn view(&self) -> Ipv4Addr {
        *self
    }
}

impl ScpiSerialize for Ipv4Addr {
    /// Dotted decimal notation.
    open spec fn wire(&self) -> Seq<char> {
        decimal_text(self.a as nat) + "."@ + decimal_text(self.b as nat) + "."@ + decimal_text(
            self.c as nat,
        ) + "."@ + decimal_text(self.d as nat)
    }

    fn serialize(&self, out: &mut String) {
        text::push_decimal(self.a as u64, out);
        out.append(".");
        text::push_decimal(self.b as u64, out);
        out.append(".");
        text::push_decimal(self.c as u64, out);
        out.append(".");
        text::push_decimal(self.d as u64, out);
        assert(out@ =~= old(out)@ + self.wire());
    }
}

impl ScpiDeserialize for Ipv4Addr {
    open spec fn parse(input: Seq<char>) -> Parsed<Ipv4Addr> {
        parse_ipv4(input)
    }

    fn deserialize(input: &mut &str) -> (r: Result<Self, Error>) {
        let start: &str = *input;
        match read_dotted_quad(input) {
            Some(address) => {
                if is_blank(*input) {
                    return Ok(address);
                }
                *input = start;
            },
            None => {},
        }
        Err(
            Error::ResponseDecoding(
                String::from_str("Failed to parse IPv4 Address: invalid IPv4 address syntax"),
            ),
        )
    }
}

impl ScpiCodec for Ipv4Addr {
    open spec fn valid(&self) -> bool {
        true
    }

    /// What follows an address must be white space, or nothing.
    open spec fn delimits(rest: Seq<char>) -> bool {
        text::all_whitespace(rest)
    }

    proof fn round_trip(&self, rest: Seq<char>) {
        if rest.len() > 0 {
            assert(text::is_whitespace(rest[0]));
        }
        lemma_dotted_quad_round_trip(*self, rest);
    }
}

/// Decoding of one number of an address: the longest run of decimal digits,
/// which is one to three digits long, does not start with a zero that another
/// digit follows, and is worth at most 255.
pub open spec fn parse_octet(input: Seq<char>) -> Option<(u8, Seq<char>)> {
    let digits = input.take(digit_run(input) as int);
    if 1 <= digits.len() <= 3 && (digits.len() > 1 ==> digits[0] != '0') && decimal_value(digits)
        <= u8::MAX {
        Some((decimal_value(digits) as u8, input.skip(digits.len() as int)))
    } else {
        None
    }
}

/// Decoding of one number of an address and the dot that follows it.
pub open spec fn parse_octet_dot(input: Seq<char>) -> Option<(u8, Seq<char>)> {
    match parse_octet(input) {
        None => None,
        Some((octet, rest)) => if "."@.is_prefix_of(rest) {
            Some((octet, rest.skip("."@.len() as int)))
        } else {
            None
        },
    }
}

/// Decoding of the four numbers of an address with the dots between them.
pub open spec fn parse_dotted_quad(input: Seq<char>) -> Option<(Ipv4Addr, Seq<char>)> {
    match parse_octet_dot(input) {
        None => None,
        Some((a, after_a)) => match parse_octet_dot(after_a) {
            None => None,
            Some((b, after_b)) => match parse_octet_dot(after_b) {
                None => None,
                Some((c, after_c)) => match parse_octet(after_c) {
                    None => None,
                    Some((d, rest)) => Some((Ipv4Addr { a, b, c, d }, rest)),
                },
            },
        },
    }
}

/// The detail of the fault for input that is not an address.
pub open spec fn address_fault() -> Seq<char> {
    "Failed to parse IPv4 Address: invalid IPv4 address syntax"@
}

/// Decoding of an address: the address in dotted decimal notation at the very
/// start of the input, followed by nothing but white space. The white space
/// is left over.
pub open spec fn parse_ipv4(input: Seq<char>) -> Parsed<Ipv4Addr> {
    match parse_dotted_quad(input) {
        None => Err(address_fault()),
        Some((address, rest)) => if text::all_whitespace(rest) {
            Ok((address, rest))
        } else {
            Err(address_fault())
        },
    }
}

/// Decodes one number of an address and moves the cursor past it. On failure
/// the cursor stays where it was.
fn read_octet(input: &mut &str) -> (r: Option<u8>)
    ensures
        match parse_octet(old(input)@) {
            Some((octet, rest)) => r == Some(octet) && final(input)@ == rest,
            None => r is None && final(input)@ == old(input)@,
        },
{
    let start: &str = *input;
    let digits = read_digits(input);
    let count = digits.unicode_len();
    if count == 0 || count > 3 || (count > 1 && digits.get_char(0) == '0') {
        *input = start;
        return None;
    }
    match text::decimal_of(digits) {
        Some(value) if value <= 255 => Some(value as u8),
        _ => {
            *input = start;
            None
        },
    }
}

/// Decodes one number of an address and the dot that follows it, and moves
/// the cursor past both. On failure the cursor stays where it was.
fn read_octet_dot(input: &mut &str) -> (r: Option<u8>)
    ensures
        match parse_octet_dot(old(input)@) {
            Some((octet, rest)) => r == Some(octet) && final(input)@ == rest,
            None => r is None && final(input)@ == old(input)@,
        },
{
    let start: &str = *input;
    let octet = match read_octet(input) {
        Some(octet) => octet,
        None => {
            return None;
        },
    };
    if match_literal(input, ".").is_ok() {
        Some(octet)
    } else {
        *input = start;
        None
    }
}

/// Decodes the four numbers of an address with the dots between them, and
/// moves the cursor past them. On failure the cursor stays where it was.
fn read_dotted_quad(input: &mut &str) -> (r: Option<Ipv4Addr>)
    ensures
        match parse_dotted_quad(old(input)@) {
            Some((address, rest)) => r == Some(address) && final(input)@ == rest,
            None => r is None && final(input)@ == old(input)@,
        },
{
    let start: &str = *input;
    let a = match read_octet_dot(input) {
        Some(octet) => octet,
        None => {
            return None;
        },
    };
    let b = match read_octet_dot(input) {
        Some(octet) => octet,
        None => {
            *input = start;
            return None;
        },
    };
    let c = match read_octet_dot(input) {
        Some(octet) => octet,
        None => {
            *input = start;
            return None;
        },
    };
    let d = match read_octet(input) {
        Some(octet) => octet,
        None => {
            *input = start;
            return None;
        },
    };
    Some(Ipv4Addr { a, b, c, d })
}

/// Whether `s` holds nothing but white space.
fn is_blank(s: &str) -> (blank: bool)
    ensures
        blank == text::all_whitespace(s@),
{
    let total = s.unicode_len();
    let mut i: usize = 0;
    while i < total
        invariant
            total == s@.len(),
            i <= total,
            forall|j: int| 0 <= j < i ==> text::is_whitespace(#[trigger] s@[j]),
        decreases total - i,
    {
        if !text::is_whitespace_char(s.get_char(i)) {
            return false;
        }
        i += 1;
    }
    true
}

/// One number of an address in decimal, followed by input that does not start
/// with a digit, is decoded as that number and leaves that input over.
pub proof fn lemma_octet_round_trip(octet: u8, rest: Seq<char>)
    requires
        rest.len() > 0 ==> !is_digit(rest[0]),
    ensures
        parse_octet(decimal_text(octet as nat) + rest) == Some((octet, rest)),
{
    let digits = decimal_text(octet as nat);
    let input = digits + rest;
    text::lemma_decimal_text(octet as nat);
    text::lemma_run_len_concat(digits, rest, |c: char| is_digit(c));
    assert(input.take(digits.len() as int) =~= digits);
    assert(input.skip(digits.len() as int) =~= rest);
}

/// One number of an address in decimal and a dot, whatever follows, are
/// decoded as that number and leave over what follows.
pub proof fn lemma_octet_dot_round_trip(octet: u8, rest: Seq<char>)
    ensures
        parse_octet_dot(decimal_text(octet as nat) + "."@ + rest) == Some((octet, rest)),
{
    reveal_strlit(".");
    let after = "."@ + rest;
    lemma_octet_round_trip(octet, after);
    lemma_literal_then("."@, rest);
    assert(decimal_text(octet as nat) + "."@ + rest =~= decimal_text(octet as nat) + after);
}

/// The four numbers of an address in dotted decimal notation, followed by
/// input that does not start with a digit, are decoded as that address and
/// leave that input over.
pub proof fn lemma_dotted_quad_round_trip(address: Ipv4Addr, rest: Seq<char>)
    requires
        rest.len() > 0 ==> !is_digit(rest[0]),
    ensures
        parse_dotted_quad(address.wire() + rest) == Some((address, rest)),
{
    let after_c = decimal_text(address.d as nat) + rest;
    let after_b = decimal_text(address.c as nat) + "."@ + after_c;
    let after_a = decimal_text(address.b as nat) + "."@ + after_b;
    let input = decimal_text(address.a as nat) + "."@ + after_a;
    lemma_octet_dot_round_trip(address.a, after_a);
    lemma_octet_dot_round_trip(address.b, after_b);
    lemma_octet_dot_round_trip(address.c, after_c);
    lemma_octet_round_trip(address.d, rest);
    lemma_dotted_quad_of(input, address, after_a, after_b, after_c, rest);
    lemma_address_text_then(address, rest);
}

/// Four numbers that are decoded one after the other, with a dot after each
/// of the first three, are decoded together as an address.
proof fn lemma_dotted_quad_of(
    input: Seq<char>,
    address: Ipv4Addr,
    after_a: Seq<char>,
    after_b: Seq<char>,
    after_c: Seq<char>,
    rest: Seq<char>,
)
    requires
        parse_octet_dot(input) == Some((address.a, after_a)),
        parse_octet_dot(after_a) == Some((address.b, after_b)),
        parse_octet_dot(after_b) == Some((address.c, after_c)),
        parse_octet(after_c) == Some((address.d, rest)),
    ensures
        parse_dotted_quad(input) == Some((address, rest)),
{
}

/// The text of an address followed by `rest`, grouped number by number.
proof fn lemma_address_text_then(address: Ipv4Addr, rest: Seq<char>)
    ensures
        address.wire() + rest == decimal_text(address.a as nat) + "."@ + (decimal_text(
            address.b as nat,
        ) + "."@ + (decimal_text(address.c as nat) + "."@ + (decimal_text(address.d as nat)
            + rest))),
{
    let a = decimal_text(address.a as nat);
    let b = decimal_text(address.b as nat);
    let c = decimal_text(address.c as nat);
    let d = decimal_text(address.d as nat);
    let dot = "."@;
    assert(a + dot + b + dot + c + dot + d + rest =~= a + dot + (b + dot + (c + dot + (d + rest))));
}

/// The request to assign a static address to the device. The device ignores
/// it while DHCP is on.
#[derive(Debug, Clone, Copy, PartialEq, Eq, Structural)]
pub struct SetIpAddressRequest {
    pub addr: Ipv4Addr,
}

impl ScpiSerialize for SetIpAddressRequest {
    open spec fn wire(&self) -> Seq<char> {
        "IPaddr "@ + self.addr.wire()
    }

    fn serialize(&self, out: &mut String) {
        out.append("IPaddr ");
        self.addr.serialize(out);
        assert(out@ =~= old(out)@ + self.wire());
    }
}

impl ScpiRequest for SetIpAddressRequest {
    type Response = EmptyResponse;
}

/// The request for the address of the device.
#[derive(Debug, Clone, Copy, PartialEq, Eq, Structural)]
pub struct GetIpAddressRequest;

impl ScpiSerialize for GetIpAddressRequest {
    open spec fn wire(&self) -> Seq<char> {
        "IPaddr?"@
    }

    fn serialize(&self, out: &mut String) {
        out.append("IPaddr?");
    }
}

impl ScpiRequest for GetIpAddressRequest {
    type Response = GetIpAddressResponse;
}

/// The address of the device.
#[derive(Debug, Clone, Copy, PartialEq, Eq, Structural)]
pub struct GetIpAddressResponse {
    pub address: Ipv4Addr,
}

impl View for GetIpAddressResponse {
    type V = Ipv4Addr;

    open spec fn view(&self) -> Ipv4Addr {
        self.address
    }
}

impl ScpiDeserialize for GetIpAddressResponse {
    /// An address and the end of the line.
    open spec fn parse(input: Seq<char>) -> Parsed<Ipv4Addr> {
        then_literal(parse_ipv4(input), "\n"@)
    }

    fn deserialize(input: &mut &str) -> (r: Result<Self, Error>) {
        let start: &str = *input;
        let address = match Ipv4Addr::deserialize(input) {
            Ok(address) => address,
            Err(e) => {
                return Err(e);
            },
        };
        match match_or_rewind(input, "\n", start) {
            Ok(()) => Ok(GetIpAddressResponse { address }),
            Err(e) => Err(e),
        }
    }
}

/// The request to assign a subnet mask to the device. The device ignores it
/// while DHCP is on.
#[derive(Debug, Clone, Copy, PartialEq, Eq, Structural)]
pub struct SetSubnetMaskRequest {
    pub mask: Ipv4Addr,
}

impl ScpiSerialize for SetSubnetMaskRequest {
    open spec fn wire(&self) -> Seq<char> {
        "MASKaddr "@ + self.mask.wire()
    }

    fn serialize(&self, out: &mut String) {
        out.append("MASKaddr ");
        self.mask.serialize(out);
        assert(out@ =~= old(out)@ + self.wire());
    }
}

impl ScpiRequest for SetSubnetMaskRequest {
    type Response = EmptyResponse;
}

/// The request for the subnet mask of the device.
#[derive(Debug, Clone, Copy, PartialEq, Eq, Structural)]
pub struct GetSubnetMaskRequest;

impl ScpiSerialize for GetSubnetMaskRequest {
    open spec fn wire(&self) -> Seq<char> {
        "MASKaddr?"@
    }

    fn serialize(&self, out: &mut String) {
        out.append("MASKaddr?");
    }
}

impl ScpiRequest for GetSubnetMaskRequest {
    type Response = GetSubnetMaskResponse;
}

/// The subnet mask of the device.
#[derive(Debug, Clone, Copy, PartialEq, Eq, Structural)]
pub struct GetSubnetMaskResponse {
    pub mask: Ipv4Addr,
}

impl View for GetSubnetMaskResponse {
    type V = Ipv4Addr;

    open spec fn view(&self) -> Ipv4Addr {
        self.mask
    }
}

impl ScpiDeserialize for GetSubnetMaskResponse {
    /// An address and the end of the line.
    open spec fn parse(input: Seq<char>) -> Parsed<Ipv4Addr> {
        then_literal(parse_ipv4(input), "\n"@)
    }

    fn deserialize(input: &mut &str) -> (r: Result<Self, Error>) {
        let start: &str = *input;
        let mask = match Ipv4Addr::deserialize(input) {
            Ok(mask) => mask,
            Err(e) => {
                return Err(e);
            },
        };
        match match_or_rewind(input, "\n", start) {
            Ok(()) => Ok(GetSubnetMaskResponse { mask }),
            Err(e) => Err(e),
        }
    }
}

/// The request to assign a gateway to the device. The device ignores it while
/// DHCP is on.
#[derive(Debug, Clone, Copy, PartialEq, Eq, Structural)]
pub struct SetGatewayRequest {
    pub gateway: Ipv4Addr,
}

impl ScpiSerialize for SetGatewayRequest {
    open spec fn wire(&self) -> Seq<char> {
        "GATEaddr "@ + self.gateway.wire()
    }

    fn serialize(&self, out: &mut String) {
        out.append("GATEaddr ");
        self.gateway.serialize(out);
        assert(out@ =~= old(out)@ + self.wire());
    }
}

impl ScpiRequest for SetGatewayRequest {
    type Response = EmptyResponse;
}

/// The request for the gateway of the device.
#[derive(Debug, Clone, Copy, PartialEq, Eq, Structural)]
pub struct GetGatewayRequest;

impl ScpiSerialize for GetGatewayRequest {
    open spec fn wire(&self) -> Seq<char> {
        "GATEaddr?"@
    }

    fn serialize(&self, out: &mut String) {
        out.append("GATEaddr?");
    }
}

impl ScpiRequest for GetGatewayRequest {
    type Response = GetGatewayResponse;
}

/// The gateway of the device.
#[derive(Debug, Clone, Copy, PartialEq, Eq, Structural)]
pub struct GetGatewayResponse {
    pub gateway: Ipv4Addr,
}

impl View for GetGatewayResponse {
    type V = Ipv4Addr;

    open spec fn view(&self) -> Ipv4Addr {
        self.gateway
    }
}

impl ScpiDeserialize for GetGatewayResponse {
    /// An address and the end of the line.
    open spec fn parse(input: Seq<char>) -> Parsed<Ipv4Addr> {
        then_literal(parse_ipv4(input), "\n"@)
    }

    fn deserialize(input: &mut &str) -> (r: Result<Self, Error>) {
        let start: &str = *input;
        let gateway = match Ipv4Addr::deserialize(input) {
            Ok(gateway) => gateway,
            Err(e) => {
                return Err(e);
            },
        };
        match match_or_rewind(input, "\n", start) {
            Ok(()) => Ok(GetGatewayResponse { gateway }),
            Err(e) => Err(e),
        }
    }
}

/// The request to switch the automatic network configuration on or off.
#[derive(Debug, Clone, Copy, PartialEq, Eq, Structural)]
pub struct SetDhcpRequest {
    pub state: State,
}

impl ScpiSerialize for SetDhcpRequest {
    open spec fn wire(&self) -> Seq<char> {
        "DHCP "@ + self.state.wire()
    }

    fn serialize(&self, out: &mut String) {
        out.append("DHCP ");
        self.state.serialize(out);
        assert(out@ =~= old(out)@ + self.wire());
    }
}

impl ScpiRequest for SetDhcpRequest {
    type Response = EmptyResponse;
}

/// The request for whether the automatic network configuration is on.
#[derive(Debug, Clone, Copy, PartialEq, Eq, Structural)]
pub struct GetDhcpRequest;

impl ScpiSerialize for GetDhcpRequest {
    open spec fn wire(&self) -> Seq<char> {
        "DHCP?"@
    }

    fn serialize(&self, out: &mut String) {
        out.append("DHCP?");
    }
}

impl ScpiRequest for GetDhcpRequest {
    type Response = GetDhcpResponse;
}

/// Decoding of the DHCP state: the tag `DHCP:`, the state and the end of the
/// line.
pub open spec fn parse_dhcp_state(input: Seq<char>) -> Parsed<State> {
    match parse_literal(input, "DHCP:"@) {
        Err(detail) => Err(detail),
        Ok((_, after_tag)) => then_literal(State::parse(after_tag), "\n"@),
    }
}

/// Whether the automatic network configuration is on.
#[derive(Debug, Clone, Copy, PartialEq, Eq, Structural)]
pub struct GetDhcpResponse {
    pub state: State,
}

impl View for GetDhcpResponse {
    type V = State;

    open spec fn view(&self) -> State {
        self.state
    }
}

impl ScpiDeserialize for GetDhcpResponse {
    open spec fn parse(input: Seq<char>) -> Parsed<State> {
        parse_dhcp_state(input)
    }

    fn deserialize(input: &mut &str) -> (r: Result<Self, Error>) {
        let start: &str = *input;
        match match_literal(input, "DHCP:") {
            Ok(()) => {},
            Err(e) => {
                return Err(e);
            },
        }
        let state = match State::deserialize(input) {
            Ok(state) => state,
            Err(e) => {
                *input = start;
                return Err(e);
            },
        };
        match match_or_rewind(input, "\n", start) {
            Ok(()) => Ok(GetDhcpResponse { state }),
            Err(e) => Err(e),
        }
    }
}

} // verus!
