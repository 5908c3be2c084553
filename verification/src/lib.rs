//! Wire codec and session logic for the SPD3303X programmable power supply.
//!
//! The device speaks a line-oriented text protocol. A request is a value that
//! writes itself as one line; a response is a value that reads itself from
//! the line the device answers with. This crate holds the typed catalog of
//! requests and responses, the text cursor they are decoded with, and the
//! decisions of a session. It performs no I/O itself.
//!
//! Positions in the input are counted in characters, and each step of the
//! cursor is linear in the length of the line. The lines of the protocol are
//! short.

use vstd::prelude::*;
use vstd::string::StrSliceExecFns;
use vstd::string::StringExecFns;

pub mod commands;
pub mod session;
pub mod text;

verus! {

/// Everything that can go wrong while talking to the device.
#[derive(Debug)]
pub enum Error {
    /// The received text does not have the expected form.
    ResponseDecoding(String),
    /// The connection to the device failed.
    IoError(String),
    /// No address of the device could be reached.
    ConnectFailed(String),
    /// The device that answered is not the expected one.
    SerialMismatch(String),
    /// Anything else, such as missing configuration.
    Other(String),
}

impl Error {
    /// The detail carried by the fault.
    pub open spec fn detail(&self) -> Seq<char> {
        match self {
            Error::ResponseDecoding(m) => m@,
            Error::IoError(m) => m@,
            Error::ConnectFailed(m) => m@,
            Error::SerialMismatch(m) => m@,
            Error::Other(m) => m@,
        }
    }

    /// What introduces the detail in the fault's description.
    pub open spec fn heading(&self) -> Seq<char> {
        match self {
            Error::ResponseDecoding(_) => "Received data does not match expected format: "@,
            Error::IoError(_) => "Underlying I/O error: "@,
            Error::ConnectFailed(_) => "Failed to connect: "@,
            Error::SerialMismatch(_) => "Serial mismatch: "@,
            Error::Other(_) => "Other: "@,
        }
    }

    /// A description of the fault for people: the heading of its kind,
    /// followed by its detail.
    pub fn message(&self) -> (text: String)
        ensures
            text@ == self.heading() + self.detail(),
    {
        match self {
            Error::ResponseDecoding(m) => String::from_str(
                "Received data does not match expected format: ",
            ).concat(m.as_str()),
            Error::IoError(m) => String::from_str("Underlying I/O error: ").concat(m.as_str()),
            Error::ConnectFailed(m) => String::from_str("Failed to connect: ").concat(m.as_str()),
            Error::SerialMismatch(m) => String::from_str("Serial mismatch: ").concat(m.as_str()),
            Error::Other(m) => String::from_str("Other: ").concat(m.as_str()),
        }
    }
}

/// What decoding makes of an input: the decoded value together with the input
/// that is left over, or the detail of the decoding fault.
pub type Parsed<V> = Result<(V, Seq<char>), Seq<char>>;

/// The outcome `r` of a decoding step, with the cursor at `after`, is what
/// `expected` prescribes for a cursor that stood at `before`: on success the
/// value and the left-over input agree, on failure the fault carries the
/// prescribed detail and the cursor has not moved.
pub open spec fn decodes_as<T: View>(
    r: Result<T, Error>,
    after: Seq<char>,
    before: Seq<char>,
    expected: Parsed<T::V>,
) -> bool {
    match expected {
        Ok((value, rest)) => r matches Ok(x) && x@ == value && after == rest,
        Err(detail) => r matches Err(Error::ResponseDecoding(m)) && m@ == detail && after
            == before,
    }
}

/// A value that can write itself in wire syntax.
pub trait ScpiSerialize {
    /// The wire text of this value.
    spec fn wire(&self) -> Seq<char>;

    /// Appends the wire text of this value to `out`.
    fn serialize(&self, out: &mut String)
        ensures
            final(out)@ == old(out)@ + self.wire(),
    ;
}

/// A value that can read itself from wire syntax.
pub trait ScpiDeserialize: Sized + View {
    /// What decoding makes of `input`.
    spec fn parse(input: Seq<char>) -> Parsed<Self::V>;

    /// Decodes a value from the start of the input and moves the cursor past
    /// it. On failure the cursor stays where it was.
    fn deserialize(input: &mut &str) -> (r: Result<Self, Error>)
        ensures
            decodes_as(r, final(input)@, old(input)@, Self::parse(old(input)@)),
    ;
}

/// A request, bound to the type of the response that answers it.
pub trait ScpiRequest: ScpiSerialize {
    type Response: ScpiDeserialize;
}

impl<T: ScpiSerialize> ScpiSerialize for Option<T> {
    /// An absent value writes nothing.
    open spec fn wire(&self) -> Seq<char> {
        match self {
            Some(inner) => inner.wire(),
            None => Seq::empty(),
        }
    }

    fn serialize(&self, out: &mut String) {
        if let Some(inner) = self {
            inner.serialize(out);
        }
    }
}

/// The response to a request that the device does not answer.
pub struct EmptyResponse;

impl View for EmptyResponse {
    type V = ();

    open spec fn view(&self) -> () {
        ()
    }
}

impl ScpiDeserialize for EmptyResponse {
    /// Decoding takes nothing from the input and always succeeds.
    open spec fn parse(input: Seq<char>) -> Parsed<()> {
        Ok(((), input))
    }

    fn deserialize(input: &mut &str) -> (r: Result<Self, Error>) {
        Ok(EmptyResponse)
    }
}

/// The detail of the fault for a literal that the input does not start with.
pub open spec fn literal_fault(literal: Seq<char>, input: Seq<char>) -> Seq<char> {
    "Expected literal `"@ + literal + "` not matched `"@ + input + "`"@
}

/// Matching of a literal: the input must start with it, and what follows it
/// is left over.
pub open spec fn parse_literal(input: Seq<char>, literal: Seq<char>) -> Parsed<()> {
    if literal.is_prefix_of(input) {
        Ok(((), input.skip(literal.len() as int)))
    } else {
        Err(literal_fault(literal, input))
    }
}

/// Moves the cursor past `literal` if the input starts with it, character for
/// character. Otherwise fails with a fault that names the literal and the
/// input, and leaves the cursor where it was.
pub fn match_literal(input: &mut &str, literal: &'static str) -> (r: Result<(), Error>)
    ensures
        decodes_as(r, final(input)@, old(input)@, parse_literal(old(input)@, literal@)),
{
    let s: &str = *input;
    let n = literal.unicode_len();
    let total = s.unicode_len();
    let mut i: usize = 0;
    let mut matched = n <= total;
    while matched && i < n
        invariant
            n == literal@.len(),
            total == s@.len(),
            i <= n,
            matched ==> n <= total,
            matched ==> forall|j: int| 0 <= j < i ==> s@[j] == literal@[j],
            !matched ==> !literal@.is_prefix_of(s@),
        decreases n - i + if matched { 1int } else { 0int },
    {
        if s.get_char(i) != literal.get_char(i) {
            matched = false;
            proof {
                if literal@.is_prefix_of(s@) {
                    assert(s@.subrange(0, n as int)[i as int] == literal@[i as int]);
                }
            }
        } else {
            i += 1;
        }
    }
    if matched {
        assert(literal@ =~= s@.subrange(0, n as int));
        *input = s.substring_char(n, total);
        Ok(())
    } else {
        let detail = String::from_str("Expected literal `").concat(literal).concat(
            "` not matched `",
        ).concat(s).concat("`");
        Err(Error::ResponseDecoding(detail))
    }
}

/// The detail of the fault for a delimiter that the input does not contain.
pub open spec fn delimiter_fault(delimiter: char, input: Seq<char>) -> Seq<char> {
    "Expected `"@ + seq![delimiter] + "` in `"@ + input + "`"@
}

/// The position of the first `delimiter` in `input`, or the length of `input`
/// where there is none.
pub open spec fn delimiter_index(input: Seq<char>, delimiter: char) -> nat {
    text::run_len(input, text::other_than(delimiter))
}

/// Reading up to a delimiter: the text before its first occurrence, with the
/// input after it left over.
pub open spec fn parse_until(input: Seq<char>, delimiter: char) -> Parsed<Seq<char>> {
    let k = delimiter_index(input, delimiter) as int;
    if k < input.len() {
        Ok((input.take(k), input.skip(k + 1)))
    } else {
        Err(delimiter_fault(delimiter, input))
    }
}

/// Returns the text before the first `delimiter` and moves the cursor past
/// the delimiter. Fails, leaving the cursor where it was, if the input holds
/// no delimiter.
pub fn read_until<'a>(input: &mut &'a str, delimiter: char) -> (r: Result<&'a str, Error>)
    ensures
        decodes_as(r, final(input)@, old(input)@, parse_until(old(input)@, delimiter)),
{
    let s: &'a str = *input;
    let total = s.unicode_len();
    let mut i: usize = 0;
    while i < total
        invariant
            total == s@.len(),
            i <= total,
            forall|j: int| 0 <= j < i ==> s@[j] != delimiter,
        ensures
            i <= total,
            forall|j: int| 0 <= j < i ==> s@[j] != delimiter,
            i < total ==> s@[i as int] == delimiter,
        decreases total - i,
    {
        if s.get_char(i) == delimiter {
            break ;
        }
        i += 1;
    }
    proof {
        text::lemma_run_len_is(s@, text::other_than(delimiter), i as nat);
    }
    if i < total {
        let head = s.substring_char(0, i);
        *input = s.substring_char(i + 1, total);
        Ok(head)
    } else {
        let mut detail = String::from_str("Expected `");
        detail.push(delimiter);
        let detail = detail.concat("` in `").concat(s).concat("`");
        assert(detail@ =~= delimiter_fault(delimiter, s@));
        Err(Error::ResponseDecoding(detail))
    }
}

/// Returns the longest prefix of the input whose characters all satisfy
/// `pattern`, which may be empty, and moves the cursor past it.
pub fn read_while<'a, P: Fn(char) -> bool>(input: &mut &'a str, pattern: P) -> (head: &'a str)
    requires
        forall|c: char| call_requires(pattern, (c,)),
    ensures
        head@ + final(input)@ == old(input)@,
        forall|i: int| 0 <= i < head@.len() ==> call_ensures(pattern, (#[trigger] head@[i],), true),
        final(input)@.len() > 0 ==> call_ensures(pattern, (final(input)@[0],), false),
{
    let s: &'a str = *input;
    let total = s.unicode_len();
    let mut i: usize = 0;
    while i < total
        invariant
            total == s@.len(),
            i <= total,
            forall|c: char| call_requires(pattern, (c,)),
            forall|j: int| 0 <= j < i ==> call_ensures(pattern, (#[trigger] s@[j],), true),
        ensures
            i <= total,
            forall|j: int| 0 <= j < i ==> call_ensures(pattern, (#[trigger] s@[j],), true),
            i < total ==> call_ensures(pattern, (s@[i as int],), false),
        decreases total - i,
    {
        if !pattern(s.get_char(i)) {
            break ;
        }
        i += 1;
    }
    let head = s.substring_char(0, i);
    *input = s.substring_char(i, total);
    assert(head@ + s@.subrange(i as int, total as int) =~= s@);
    head
}

/// The detail of the fault for an input that is shorter than asked for.
pub open spec fn length_fault(len: nat, input: Seq<char>) -> Seq<char> {
    "Failed to read "@ + text::decimal_text(len) + " characters from `"@ + input + "`"@
}

/// Reading of exactly `len` characters.
pub open spec fn parse_exact(input: Seq<char>, len: nat) -> Parsed<Seq<char>> {
    if len <= input.len() {
        Ok((input.take(len as int), input.skip(len as int)))
    } else {
        Err(length_fault(len, input))
    }
}

/// Returns exactly `len` characters and moves the cursor past them. Fails,
/// leaving the cursor where it was, if the input is shorter.
pub fn read_exact<'a>(input: &mut &'a str, len: usize) -> (r: Result<&'a str, Error>)
    ensures
        decodes_as(r, final(input)@, old(input)@, parse_exact(old(input)@, len as nat)),
{
    let s: &'a str = *input;
    let total = s.unicode_len();
    if total < len {
        let mut detail = String::from_str("Failed to read ");
        text::push_decimal(len as u64, &mut detail);
        let detail = detail.concat(" characters from `").concat(s).concat("`");
        return Err(Error::ResponseDecoding(detail));
    }
    let head = s.substring_char(0, len);
    *input = s.substring_char(len, total);
    Ok(head)
}

/// Returns everything up to the next line feed and moves the cursor past the
/// line feed. Fails, leaving the cursor where it was, if there is none.
pub fn read_all(input: &mut &str) -> (r: Result<String, Error>)
    ensures
        decodes_as(r, final(input)@, old(input)@, parse_until(old(input)@, '\n')),
{
    match read_until(input, '\n') {
        Ok(line) => Ok(line.to_owned()),
        Err(e) => Err(e),
    }
}

/// The detail of the fault for input that is left over after decoding.
pub open spec fn remainder_fault(input: Seq<char>) -> Seq<char> {
    "Response should be empty/fully deserialized, but still has content: `"@ + input + "`"@
}

/// The check that nothing is left of the input.
pub open spec fn parse_end(input: Seq<char>) -> Parsed<()> {
    if input.len() == 0 {
        Ok(((), input))
    } else {
        Err(remainder_fault(input))
    }
}

/// Succeeds if nothing is left of the input, and fails with a fault that
/// shows what is left otherwise. The cursor stays where it is.
pub fn check_empty(input: &mut &str) -> (r: Result<(), Error>)
    ensures
        decodes_as(r, final(input)@, old(input)@, parse_end(old(input)@)),
{
    let s: &str = *input;
    if s.unicode_len() == 0 {
        Ok(())
    } else {
        Err(
            Error::ResponseDecoding(
                String::from_str(
                    "Response should be empty/fully deserialized, but still has content: `",
                ).concat(s).concat("`"),
            ),
        )
    }
}

/// Returns the longest run of decimal digits at the start of the input, which
/// may be empty, and moves the cursor past it.
pub fn read_digits<'a>(input: &mut &'a str) -> (digits: &'a str)
    ensures
        digits@ == old(input)@.take(text::digit_run(old(input)@) as int),
        digits@.len() == text::digit_run(old(input)@),
        final(input)@ == old(input)@.skip(text::digit_run(old(input)@) as int),
        text::all_digits(digits@),
{
    let start: &'a str = *input;
    let digits = read_while(input, text::is_digit_char);
    proof {
        assert forall|i: int| 0 <= i < digits@.len() implies text::is_digit(
            #[trigger] start@[i],
        ) by {
            assert(start@[i] == digits@[i]);
        }
        text::lemma_run_len_is(start@, |c: char| text::is_digit(c), digits@.len());
        assert(start@.take(digits@.len() as int) =~= digits@);
        assert(start@.skip(digits@.len() as int) =~= input@);
    }
    digits
}

/// Returns the longest run of hexadecimal digits at the start of the input,
/// which may be empty, and moves the cursor past it.
pub fn read_hex_digits<'a>(input: &mut &'a str) -> (digits: &'a str)
    ensures
        digits@ == old(input)@.take(text::hex_run(old(input)@) as int),
        digits@.len() == text::hex_run(old(input)@),
        final(input)@ == old(input)@.skip(text::hex_run(old(input)@) as int),
        forall|i: int| 0 <= i < digits@.len() ==> text::is_hex_digit(#[trigger] digits@[i]),
{
    let start: &'a str = *input;
    let digits = read_while(input, text::is_hex_digit_char);
    proof {
        assert forall|i: int| 0 <= i < digits@.len() implies text::is_hex_digit(
            #[trigger] start@[i],
        ) by {
            assert(start@[i] == digits@[i]);
        }
        text::lemma_run_len_is(start@, |c: char| text::is_hex_digit(c), digits@.len());
        assert(start@.take(digits@.len() as int) =~= digits@);
        assert(start@.skip(digits@.len() as int) =~= input@);
    }
    digits
}

/// The detail of the fault for a number that cannot be decoded.
pub open spec fn number_fault(digits: Seq<char>) -> Seq<char> {
    "Number parsing failed: "@ + digits
}

/// Decoding of an unsigned number of at most sixteen bits: the longest run of
/// decimal digits at the start of the input, which must not be empty and
/// whose value must fit.
pub open spec fn parse_u16(input: Seq<char>) -> Parsed<u16> {
    let digits = input.take(text::digit_run(input) as int);
    if digits.len() > 0 && text::decimal_value(digits) <= u16::MAX {
        Ok((text::decimal_value(digits) as u16, input.skip(digits.len() as int)))
    } else {
        Err(number_fault(digits))
    }
}

impl ScpiDeserialize for u16 {
    open spec fn parse(input: Seq<char>) -> Parsed<u16> {
        parse_u16(input)
    }

    fn deserialize(input: &mut &str) -> (r: Result<Self, Error>) {
        let start: &str = *input;
        let digits = read_digits(input);
        match text::decimal_of(digits) {
            Some(value) => Ok(value),
            None => {
                *input = start;
                Err(
                    Error::ResponseDecoding(
                        String::from_str("Number parsing failed: ").concat(digits),
                    ),
                )
            },
        }
    }
}

/// `String::push` appends the given character to the end of the string.
pub assume_specification[ String::push ](s: &mut String, ch: char)
    ensures
        final(s)@ == old(s)@.push(ch),
;

} // verus!
