use spd3303x::commands::{
    Channel, GetDhcpResponse, GetInstrumentResponse, GetTimingParametersResponse, IdentityRequest,
    IdentityResponse, MeasureRequest, MeasureResponse, OutputChannel, Quantity, Reading,
    SetOutputStateRequest, State, SystemStatusResponse,
};
use spd3303x::session::{
    decode_response, encode_request, first_attempt, next_attempt, verify_serial_number,
    ConnectStep,
};
use spd3303x::{EmptyResponse, Error};

fn identity(serial_number: &str) -> IdentityResponse {
    IdentityResponse {
        company_name: "Siglent Technologies".to_string(),
        model_number: "SPD3303X".to_string(),
        serial_number: serial_number.to_string(),
        software_version: "1.01.01.01.02".to_string(),
        hardware_version: "V3.0".to_string(),
    }
}

/// Connects as a caller would: tries what the steps name, in turn, against
/// candidates that accept a connection or not as `reachable` tells.
fn connect(host: &str, reachable: &[bool]) -> (Vec<usize>, Result<usize, Error>) {
    let mut attempts = Vec::new();
    let mut step = first_attempt(host, reachable.len());
    loop {
        match step {
            ConnectStep::Fail(error) => return (attempts, Err(error)),
            ConnectStep::Attempt(index) => {
                attempts.push(index);
                if reachable[index] {
                    return (attempts, Ok(index));
                }
                step = next_attempt(reachable.len(), index);
            }
        }
    }
}

#[test]
fn request_line_ends_with_one_line_feed() {
    assert_eq!(encode_request(&IdentityRequest), "*IDN?\n");
    assert_eq!(
        encode_request(&MeasureRequest {
            quantity: Quantity::Voltage,
            channel: Some(Channel::One)
        }),
        "MEASure:VOLTage? CH1\n"
    );
    assert_eq!(
        encode_request(&SetOutputStateRequest { channel: OutputChannel::One, state: State::On }),
        "OUTPut CH1,ON\n"
    );
}

#[test]
fn response_line_is_decoded_as_the_response_of_the_request() {
    let response: MeasureResponse = decode_response("30.000\n").unwrap();
    assert_eq!(response, MeasureResponse(Reading::from_millis(30000)));
    let response: GetDhcpResponse = decode_response("DHCP:ON\n").unwrap();
    assert_eq!(response.state, State::On);
    let response: SystemStatusResponse = decode_response("0x0224\n").unwrap();
    assert_eq!(response.value, 0x0224);
    let response: IdentityResponse =
        decode_response("Siglent Technologies, SPD3303X, SPD00001130025, 1.01.01.01.02,V3.0\n")
            .unwrap();
    assert_eq!(response.serial_number, "SPD00001130025");
}

#[test]
fn selected_channel_line_is_decoded_with_and_without_line_feed() {
    let response: GetInstrumentResponse = decode_response("CH2\n").unwrap();
    assert_eq!(response.channel, Channel::Two);
    let response: GetInstrumentResponse = decode_response("CH2").unwrap();
    assert_eq!(response.channel, Channel::Two);
    let response: GetTimingParametersResponse = decode_response("3,0.5,2\n").unwrap();
    assert_eq!(response.current, Reading::from_millis(500));
    let response: GetTimingParametersResponse = decode_response("3.000,0.500,2.000").unwrap();
    assert_eq!(response.voltage, Reading::from_millis(3000));
    match decode_response::<GetInstrumentResponse>("CH2\n\n") {
        Err(Error::ResponseDecoding(detail)) => assert_eq!(
            detail,
            "Response should be empty/fully deserialized, but still has content: `\n`"
        ),
        other => panic!("unexpected: {:?}", other),
    }
}

#[test]
fn response_line_must_be_consumed_entirely() {
    match decode_response::<MeasureResponse>("30.000\nmore") {
        Err(Error::ResponseDecoding(detail)) => assert_eq!(
            detail,
            "Response should be empty/fully deserialized, but still has content: `more`"
        ),
        other => panic!("unexpected: {:?}", other),
    }
    match decode_response::<MeasureResponse>("thirty\n") {
        Err(Error::ResponseDecoding(detail)) => assert_eq!(detail, "Number parsing failed: "),
        other => panic!("unexpected: {:?}", other),
    }
    assert!(decode_response::<EmptyResponse>("").is_ok());
    assert!(decode_response::<EmptyResponse>("\n").is_err());
}

#[test]
fn expected_serial_number_is_accepted() {
    assert!(verify_serial_number(&identity("SPD00001130025"), "SPD00001130025").is_ok());
    assert!(verify_serial_number(&identity(""), "").is_ok());
}

#[test]
fn other_serial_number_is_a_mismatch_that_names_the_device() {
    for expected in ["SPD00001130026", "spd00001130025", "SPD0000113002", "SPD00001130025 ", ""] {
        match verify_serial_number(&identity("SPD00001130025"), expected) {
            Err(Error::SerialMismatch(detail)) => {
                assert_eq!(detail, "Device has serial number: SPD00001130025")
            }
            other => panic!("unexpected: {:?}", other),
        }
    }
}

#[test]
fn connecting_without_addresses_fails_without_an_attempt() {
    let (attempts, result) = connect("supply.example", &[]);
    assert!(attempts.is_empty());
    match result {
        Err(Error::ConnectFailed(detail)) => {
            assert_eq!(detail, "Lookup provided no addresses for `supply.example`")
        }
        other => panic!("unexpected: {:?}", other),
    }
}

#[test]
fn connecting_falls_back_to_the_last_address() {
    for count in 1..6 {
        let mut reachable = vec![false; count];
        reachable[count - 1] = true;
        let (attempts, result) = connect("supply.example", &reachable);
        assert_eq!(attempts, (0..count).collect::<Vec<usize>>());
        assert_eq!(result.unwrap(), count - 1);
    }
}

#[test]
fn connecting_stops_at_the_first_address_that_accepts() {
    let (attempts, result) = connect("supply.example", &[false, true, true, false]);
    assert_eq!(attempts, vec![0, 1]);
    assert_eq!(result.unwrap(), 1);
    let (attempts, result) = connect("supply.example", &[true, false]);
    assert_eq!(attempts, vec![0]);
    assert_eq!(result.unwrap(), 0);
}

#[test]
fn connecting_fails_when_every_address_refuses() {
    let (attempts, result) = connect("supply.example", &[false, false, false]);
    assert_eq!(attempts, vec![0, 1, 2]);
    match result {
        Err(Error::ConnectFailed(detail)) => assert_eq!(detail, "Could not connect on any address"),
        other => panic!("unexpected: {:?}", other),
    }
}

#[test]
fn steps_are_total() {
    assert!(matches!(first_attempt("h", 1), ConnectStep::Attempt(0)));
    assert!(matches!(next_attempt(3, 0), ConnectStep::Attempt(1)));
    assert!(matches!(next_attempt(3, 1), ConnectStep::Attempt(2)));
    assert!(matches!(next_attempt(3, 2), ConnectStep::Fail(_)));
    assert!(matches!(next_attempt(3, 7), ConnectStep::Fail(_)));
    assert!(matches!(next_attempt(0, 0), ConnectStep::Fail(_)));
    assert!(matches!(next_attempt(usize::MAX, usize::MAX), ConnectStep::Fail(_)));
}
