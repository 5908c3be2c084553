use spd3303x::commands::{
    Channel, ChannelMode, DisplayMode, GetDhcpRequest, GetDhcpResponse, GetGatewayRequest,
    GetGatewayResponse, GetInstrumentRequest, GetInstrumentResponse, GetIpAddressRequest,
    GetIpAddressResponse, GetLimitRequest, GetLimitResponse, GetSubnetMaskRequest,
    GetSubnetMaskResponse, GetTimingParametersRequest, GetTimingParametersResponse,
    IdentityRequest, IdentityResponse, Ipv4Addr, LimitQuantity, MeasureRequest, MeasureResponse,
    MemorySlot, OperationMode, OutputChannel, Quantity, Reading, RecallRequest, SaveRequest,
    SetDhcpRequest, SetGatewayRequest, SetInstrumentRequest, SetIpAddressRequest, SetLimitRequest,
    SetOperationModeRequest, SetOutputStateRequest, SetSubnetMaskRequest, SetTimerStateRequest,
    SetTimingParametersRequest, State, SystemErrorRequest, SystemErrorResponse,
    SystemStatusRequest, SystemStatusResponse, SystemVersionRequest, SystemVersionResponse,
    TimeInterval, TimingGroup, WaveformDisplayRequest, MAX_TIME_INTERVAL,
};
use spd3303x::{Error, ScpiDeserialize, ScpiSerialize};

fn wire<T: ScpiSerialize>(value: &T) -> String {
    let mut out = String::new();
    value.serialize(&mut out);
    out
}

fn decoding_fault<T>(result: Result<T, Error>) -> String {
    match result {
        Err(Error::ResponseDecoding(detail)) => detail,
        Err(other) => panic!("not a decoding fault: {:?}", other),
        Ok(_) => panic!("decoding succeeded"),
    }
}

#[test]
fn test_idn() {
    let request = IdentityRequest;
    let mut out = String::new();
    request.serialize(&mut out);
    assert_eq!(out, "*IDN?");
    let response = &mut "Siglent Technologies, SPD3303X, SPD00001130025, 1.01.01.01.02,V3.0\n";
    let response = IdentityResponse::deserialize(response).unwrap();
    assert_eq!(response.company_name, "Siglent Technologies");
    assert_eq!(response.model_number, "SPD3303X");
    assert_eq!(response.serial_number, "SPD00001130025");
    assert_eq!(response.software_version, "1.01.01.01.02");
    assert_eq!(response.hardware_version, "V3.0");
}

#[test]
fn identity_consumes_the_line_and_rewinds_on_failure() {
    let input = &mut "a,b,c,d,e\nnext";
    let response = IdentityResponse::deserialize(input).unwrap();
    assert_eq!(response.hardware_version, "e");
    assert_eq!(*input, "next");
    let input = &mut "a,b,c,d,e";
    assert_eq!(decoding_fault(IdentityResponse::deserialize(input)), "Expected `\n` in `e`");
    assert_eq!(*input, "a,b,c,d,e");
    let input = &mut "a,b\n";
    assert_eq!(decoding_fault(IdentityResponse::deserialize(input)), "Expected `,` in `b\n`");
    assert_eq!(*input, "a,b\n");
}

#[test]
fn tokens_are_written_as_their_literals() {
    assert_eq!(wire(&MemorySlot::One), "1");
    assert_eq!(wire(&MemorySlot::Five), "5");
    assert_eq!(wire(&Channel::One), "CH1");
    assert_eq!(wire(&Channel::Two), "CH2");
    assert_eq!(wire(&Quantity::Current), "CURRent");
    assert_eq!(wire(&Quantity::Voltage), "VOLTage");
    assert_eq!(wire(&Quantity::Power), "POWEr");
    assert_eq!(wire(&LimitQuantity::Current), "CURRent");
    assert_eq!(wire(&LimitQuantity::Voltage), "VOLTage");
    assert_eq!(wire(&State::On), "ON");
    assert_eq!(wire(&State::Off), "OFF");
    assert_eq!(wire(&OutputChannel::Three), "CH3");
    assert_eq!(wire(&OperationMode::Independent), "0");
    assert_eq!(wire(&OperationMode::Series), "1");
    assert_eq!(wire(&OperationMode::Parallel), "2");
    assert_eq!(wire(&TimingGroup::Three), "3");
}

#[test]
fn channel_token_advances_exactly_past_the_literal() {
    let input = &mut "CH2";
    assert_eq!(Channel::deserialize(input).unwrap(), Channel::Two);
    assert_eq!(*input, "");
    let input = &mut "CH2,ON";
    assert_eq!(Channel::deserialize(input).unwrap(), Channel::Two);
    assert_eq!(*input, ",ON");
}

#[test]
fn third_output_is_no_channel() {
    let input = &mut "CH3";
    assert_eq!(
        decoding_fault(Channel::deserialize(input)),
        "Unexpected token for Channel: `CH3`"
    );
    assert_eq!(*input, "CH3");
    assert_eq!(OutputChannel::deserialize(input).unwrap(), OutputChannel::Three);
    assert_eq!(*input, "");
}

#[test]
fn every_token_is_read_back() {
    for slot in [
        MemorySlot::One,
        MemorySlot::Two,
        MemorySlot::Three,
        MemorySlot::Four,
        MemorySlot::Five,
    ] {
        let text = wire(&slot) + "5";
        let input = &mut text.as_str();
        assert_eq!(MemorySlot::deserialize(input).unwrap(), slot);
        assert_eq!(*input, "5");
    }
    for quantity in [Quantity::Current, Quantity::Voltage, Quantity::Power] {
        let text = wire(&quantity) + "?";
        let input = &mut text.as_str();
        assert_eq!(Quantity::deserialize(input).unwrap(), quantity);
        assert_eq!(*input, "?");
    }
    for state in [State::On, State::Off] {
        let text = wire(&state) + "\n";
        let input = &mut text.as_str();
        assert_eq!(State::deserialize(input).unwrap(), state);
        assert_eq!(*input, "\n");
    }
    for mode in [OperationMode::Independent, OperationMode::Series, OperationMode::Parallel] {
        let text = wire(&mode);
        let input = &mut text.as_str();
        assert_eq!(OperationMode::deserialize(input).unwrap(), mode);
        assert_eq!(*input, "");
    }
    for group in [
        TimingGroup::One,
        TimingGroup::Two,
        TimingGroup::Three,
        TimingGroup::Four,
        TimingGroup::Five,
    ] {
        let text = wire(&group) + ",";
        let input = &mut text.as_str();
        assert_eq!(TimingGroup::deserialize(input).unwrap(), group);
        assert_eq!(*input, ",");
    }
}

#[test]
fn unknown_tokens_are_faults() {
    assert_eq!(
        decoding_fault(State::deserialize(&mut "on")),
        "Unexpected token for State: `on`"
    );
    assert_eq!(
        decoding_fault(MemorySlot::deserialize(&mut "6")),
        "Unexpected token for MemorySlot: `6`"
    );
    assert_eq!(
        decoding_fault(Quantity::deserialize(&mut "")),
        "Unexpected token for Quantity: ``"
    );
    assert_eq!(
        decoding_fault(OperationMode::deserialize(&mut "3")),
        "Unexpected token for OperationMode: `3`"
    );
    assert_eq!(
        decoding_fault(TimingGroup::deserialize(&mut "0")),
        "Unexpected token for TimingGroup: `0`"
    );
    assert_eq!(
        decoding_fault(OutputChannel::deserialize(&mut "CH4")),
        "Unexpected token for OutputChannel: `CH4`"
    );
}

#[test]
fn reading_is_written_with_three_fractional_digits() {
    assert_eq!(wire(&Reading::from_millis(0)), "0.000");
    assert_eq!(wire(&Reading::from_millis(5)), "0.005");
    assert_eq!(wire(&Reading::from_millis(1000)), "1.000");
    assert_eq!(wire(&Reading::from_millis(1337)), "1.337");
    assert_eq!(wire(&Reading::from_millis(30000)), "30.000");
    assert_eq!(wire(&Reading::from_millis(65535)), "65.535");
    assert_eq!(Reading::from_millis(1337).get_millis(), 1337);
}

#[test]
fn every_reading_is_read_back() {
    for millis in 0..=u16::MAX {
        let text = wire(&Reading::from_millis(millis)) + "\n";
        let input = &mut text.as_str();
        assert_eq!(Reading::deserialize(input).unwrap(), Reading::from_millis(millis));
        assert_eq!(*input, "\n");
    }
}

#[test]
fn reading_accepts_short_and_missing_fractions() {
    let input = &mut "0.5,";
    assert_eq!(Reading::deserialize(input).unwrap().get_millis(), 500);
    assert_eq!(*input, ",");
    let input = &mut "1.25";
    assert_eq!(Reading::deserialize(input).unwrap().get_millis(), 1250);
    let input = &mut "3,";
    assert_eq!(Reading::deserialize(input).unwrap().get_millis(), 3000);
    assert_eq!(*input, ",");
    let input = &mut "030.000\n";
    assert_eq!(Reading::deserialize(input).unwrap().get_millis(), 30000);
    assert_eq!(*input, "\n");
}

#[test]
fn reading_faults_leave_the_cursor() {
    let input = &mut "1.2345";
    assert_eq!(
        decoding_fault(Reading::deserialize(input)),
        "Expected one to three fractional digits, found `2345`"
    );
    assert_eq!(*input, "1.2345");
    let input = &mut "1.x";
    assert_eq!(
        decoding_fault(Reading::deserialize(input)),
        "Expected one to three fractional digits, found ``"
    );
    assert_eq!(*input, "1.x");
    let input = &mut "65.536";
    assert_eq!(
        decoding_fault(Reading::deserialize(input)),
        "Reading exceeds the range of 65.535: `65.536`"
    );
    assert_eq!(*input, "65.536");
    let input = &mut "66";
    assert_eq!(
        decoding_fault(Reading::deserialize(input)),
        "Reading exceeds the range of 65.535: `66`"
    );
    let input = &mut ".5";
    assert_eq!(decoding_fault(Reading::deserialize(input)), "Number parsing failed: ");
    assert_eq!(*input, ".5");
    let input = &mut "-1.000";
    assert!(Reading::deserialize(input).is_err());
}

#[test]
fn time_interval_has_an_upper_bound() {
    assert_eq!(MAX_TIME_INTERVAL, 10000);
    assert_eq!(TimeInterval::new(0).unwrap().get_seconds(), 0);
    assert_eq!(TimeInterval::new(10000).unwrap().get_seconds(), 10000);
    match TimeInterval::new(10001) {
        Err(Error::Other(detail)) => assert_eq!(
            detail,
            "Time interval value 10001 exceeds accepted range for SPD3303X (max. 10000)"
        ),
        other => panic!("unexpected: {:?}", other),
    }
    assert!(TimeInterval::new(u16::MAX).is_err());
}

#[test]
fn time_interval_is_read_back() {
    for seconds in [0u16, 1, 9, 10, 99, 100, 2500, 9999, 10000] {
        let interval = TimeInterval::new(seconds).unwrap();
        let text = wire(&interval) + ",";
        assert_eq!(text, format!("{},", seconds));
        let input = &mut text.as_str();
        assert_eq!(TimeInterval::deserialize(input).unwrap(), interval);
        assert_eq!(*input, ",");
    }
    let input = &mut "10001";
    assert_eq!(
        decoding_fault(TimeInterval::deserialize(input)),
        "Time interval value 10001 exceeds accepted range for SPD3303X (max. 10000)"
    );
    assert_eq!(*input, "10001");
}

#[test]
fn requests_are_written_as_the_device_expects() {
    assert_eq!(wire(&IdentityRequest), "*IDN?");
    assert_eq!(wire(&SaveRequest { slot: MemorySlot::One }), "*SAV 1");
    assert_eq!(wire(&RecallRequest { slot: MemorySlot::Four }), "*RCL 4");
    assert_eq!(wire(&SetInstrumentRequest { channel: Channel::One }), "INSTrument CH1");
    assert_eq!(wire(&GetInstrumentRequest), "INSTrument?");
    assert_eq!(
        wire(&MeasureRequest { quantity: Quantity::Voltage, channel: Some(Channel::One) }),
        "MEASure:VOLTage? CH1"
    );
    assert_eq!(
        wire(&MeasureRequest { quantity: Quantity::Current, channel: Some(Channel::Two) }),
        "MEASure:CURRent? CH2"
    );
    assert_eq!(
        wire(&MeasureRequest { quantity: Quantity::Power, channel: None }),
        "MEASure:POWEr? "
    );
    assert_eq!(
        wire(&SetOutputStateRequest { channel: OutputChannel::One, state: State::On }),
        "OUTPut CH1,ON"
    );
    assert_eq!(
        wire(&SetOutputStateRequest { channel: OutputChannel::Three, state: State::Off }),
        "OUTPut CH3,OFF"
    );
    assert_eq!(
        wire(&SetOperationModeRequest { mode: OperationMode::Independent }),
        "OUTPut:TRACK 0"
    );
    assert_eq!(
        wire(&WaveformDisplayRequest { channel: Channel::One, state: State::On }),
        "OUTPut:WAVE CH1,ON"
    );
    assert_eq!(
        wire(&SetTimingParametersRequest {
            channel: Channel::One,
            group: TimingGroup::Two,
            voltage: Reading::from_millis(3000),
            current: Reading::from_millis(500),
            time: TimeInterval::new(2).unwrap(),
        }),
        "TIMEr:SET CH1,2,3.000,0.500,2"
    );
    assert_eq!(
        wire(&GetTimingParametersRequest { channel: Channel::One, group: TimingGroup::Two }),
        "TIMEr:SET? CH1,2"
    );
    assert_eq!(
        wire(&SetTimerStateRequest { channel: Channel::One, state: State::On }),
        "TIMEr CH1,ON"
    );
    assert_eq!(wire(&SystemErrorRequest), "SYSTem:ERRor?");
    assert_eq!(wire(&SystemVersionRequest), "SYSTem:VERSion?");
    assert_eq!(wire(&SystemStatusRequest), "SYSTem:STATus?");
    assert_eq!(
        wire(&SetIpAddressRequest { addr: Ipv4Addr::new(10, 11, 13, 214) }),
        "IPaddr 10.11.13.214"
    );
    assert_eq!(wire(&GetIpAddressRequest), "IPaddr?");
    assert_eq!(
        wire(&SetSubnetMaskRequest { mask: Ipv4Addr::new(255, 255, 255, 0) }),
        "MASKaddr 255.255.255.0"
    );
    assert_eq!(wire(&GetSubnetMaskRequest), "MASKaddr?");
    assert_eq!(
        wire(&SetGatewayRequest { gateway: Ipv4Addr::new(10, 11, 13, 1) }),
        "GATEaddr 10.11.13.1"
    );
    assert_eq!(wire(&GetGatewayRequest), "GATEaddr?");
    assert_eq!(wire(&SetDhcpRequest { state: State::On }), "DHCP ON");
    assert_eq!(wire(&GetDhcpRequest), "DHCP?");
}

#[test]
fn serializing_appends_to_what_is_there() {
    let mut out = String::from("> ");
    SaveRequest { slot: MemorySlot::Two }.serialize(&mut out);
    out.push_str(" | ");
    GetDhcpRequest.serialize(&mut out);
    assert_eq!(out, "> *SAV 2 | DHCP?");
}

#[test]
fn limit_request_without_channel_has_no_prefix() {
    let request = SetLimitRequest {
        quantity: LimitQuantity::Voltage,
        value: Reading::from_millis(1000),
        channel: None,
    };
    assert_eq!(wire(&request), "VOLTage 1.000");
    let request = GetLimitRequest { quantity: LimitQuantity::Current, channel: None };
    assert_eq!(wire(&request), "CURRent?");
}

#[test]
fn limit_request_with_channel_has_prefix_and_colon() {
    let request = SetLimitRequest {
        quantity: LimitQuantity::Voltage,
        value: Reading::from_millis(1000),
        channel: Some(Channel::One),
    };
    assert_eq!(wire(&request), "CH1:VOLTage 1.000");
    let request = SetLimitRequest {
        quantity: LimitQuantity::Voltage,
        value: Reading::from_millis(25000),
        channel: Some(Channel::One),
    };
    assert_eq!(wire(&request), "CH1:VOLTage 25.000");
    let request = SetLimitRequest {
        quantity: LimitQuantity::Current,
        value: Reading::from_millis(500),
        channel: Some(Channel::Two),
    };
    assert_eq!(wire(&request), "CH2:CURRent 0.500");
    let request = GetLimitRequest { quantity: LimitQuantity::Voltage, channel: Some(Channel::One) };
    assert_eq!(wire(&request), "CH1:VOLTage?");
}

#[test]
fn measurement_is_a_reading_and_the_end_of_the_line() {
    let input = &mut "30.000\n";
    assert_eq!(
        MeasureResponse::deserialize(input).unwrap(),
        MeasureResponse(Reading::from_millis(30000))
    );
    assert_eq!(*input, "");
    let input = &mut "30.000";
    assert_eq!(
        decoding_fault(MeasureResponse::deserialize(input)),
        "Expected literal `\n` not matched ``"
    );
    assert_eq!(*input, "30.000");
    let input = &mut "0.500\n";
    assert_eq!(
        GetLimitResponse::deserialize(input).unwrap(),
        GetLimitResponse(Reading::from_millis(500))
    );
    assert_eq!(*input, "");
    let input = &mut "0.500 A\n";
    assert_eq!(
        decoding_fault(GetLimitResponse::deserialize(input)),
        "Expected literal `\n` not matched ` A\n`"
    );
    assert_eq!(*input, "0.500 A\n");
}

#[test]
fn selected_channel_is_a_channel_token() {
    let input = &mut "CH2";
    assert_eq!(
        GetInstrumentResponse::deserialize(input).unwrap(),
        GetInstrumentResponse { channel: Channel::Two }
    );
    assert_eq!(*input, "");
    let input = &mut "CH1";
    assert_eq!(
        GetInstrumentResponse::deserialize(input).unwrap(),
        GetInstrumentResponse { channel: Channel::One }
    );
    assert_eq!(*input, "");
}

#[test]
fn selected_channel_takes_the_line_feed_that_follows() {
    let input = &mut "CH1\n";
    assert_eq!(
        GetInstrumentResponse::deserialize(input).unwrap(),
        GetInstrumentResponse { channel: Channel::One }
    );
    assert_eq!(*input, "");
    let input = &mut "CH2\n\n";
    assert_eq!(GetInstrumentResponse::deserialize(input).unwrap().channel, Channel::Two);
    assert_eq!(*input, "\n");
    let input = &mut "CH2,ON";
    assert_eq!(GetInstrumentResponse::deserialize(input).unwrap().channel, Channel::Two);
    assert_eq!(*input, ",ON");
}

#[test]
fn selected_channel_fault_leaves_the_cursor() {
    let input = &mut "CH3\n";
    assert_eq!(
        decoding_fault(GetInstrumentResponse::deserialize(input)),
        "Unexpected token for Channel: `CH3\n`"
    );
    assert_eq!(*input, "CH3\n");
    let input = &mut "\nCH1";
    assert!(GetInstrumentResponse::deserialize(input).is_err());
    assert_eq!(*input, "\nCH1");
}

#[test]
fn timing_parameters_are_three_readings() {
    let input = &mut "3,0.5,2\n";
    let response = GetTimingParametersResponse::deserialize(input).unwrap();
    assert_eq!(response.voltage, Reading::from_millis(3000));
    assert_eq!(response.current, Reading::from_millis(500));
    assert_eq!(response.time, Reading::from_millis(2000));
    assert_eq!(*input, "");
    let input = &mut "3.000,0.500,2.000\n";
    let response = GetTimingParametersResponse::deserialize(input).unwrap();
    assert_eq!(
        response,
        GetTimingParametersResponse {
            voltage: Reading::from_millis(3000),
            current: Reading::from_millis(500),
            time: Reading::from_millis(2000),
        }
    );
    assert_eq!(*input, "");
}

#[test]
fn timing_parameters_need_no_line_feed() {
    let input = &mut "3.000,0.500,2.000";
    let response = GetTimingParametersResponse::deserialize(input).unwrap();
    assert_eq!(
        response,
        GetTimingParametersResponse {
            voltage: Reading::from_millis(3000),
            current: Reading::from_millis(500),
            time: Reading::from_millis(2000),
        }
    );
    assert_eq!(*input, "");
    let input = &mut "3,0.5,2";
    let response = GetTimingParametersResponse::deserialize(input).unwrap();
    assert_eq!(response.time, Reading::from_millis(2000));
    assert_eq!(*input, "");
    let input = &mut "1.000,2.000,3.000 s\n";
    let response = GetTimingParametersResponse::deserialize(input).unwrap();
    assert_eq!(response.time, Reading::from_millis(3000));
    assert_eq!(*input, " s\n");
}

#[test]
fn timing_parameters_faults_leave_the_cursor() {
    let input = &mut "3,0.5\n";
    assert_eq!(
        decoding_fault(GetTimingParametersResponse::deserialize(input)),
        "Expected literal `,` not matched `\n`"
    );
    assert_eq!(*input, "3,0.5\n");
    let input = &mut "3,0.5,\n";
    assert_eq!(
        decoding_fault(GetTimingParametersResponse::deserialize(input)),
        "Number parsing failed: "
    );
    assert_eq!(*input, "3,0.5,\n");
    let input = &mut "3,0.5,70\n";
    assert_eq!(
        decoding_fault(GetTimingParametersResponse::deserialize(input)),
        "Reading exceeds the range of 65.535: `70\n`"
    );
    assert_eq!(*input, "3,0.5,70\n");
}

#[test]
fn error_and_version_are_the_line() {
    let input = &mut "0 No Error\n";
    assert_eq!(
        SystemErrorResponse::deserialize(input).unwrap(),
        SystemErrorResponse { content: "0 No Error".to_string() }
    );
    assert_eq!(*input, "");
    let input = &mut "1.01.01.01.02\n";
    assert_eq!(
        SystemVersionResponse::deserialize(input).unwrap(),
        SystemVersionResponse { version: "1.01.01.01.02".to_string() }
    );
    assert_eq!(*input, "");
    assert!(SystemVersionResponse::deserialize(&mut "1.01").is_err());
}

#[test]
fn status_word_is_hexadecimal() {
    let input = &mut "0x0224\n";
    assert_eq!(
        SystemStatusResponse::deserialize(input).unwrap(),
        SystemStatusResponse { value: 0x0224 }
    );
    assert_eq!(*input, "");
    assert_eq!(SystemStatusResponse::deserialize(&mut "0xFfFf\n").unwrap().value, 0xffff);
    let input = &mut "0x\n";
    assert_eq!(
        decoding_fault(SystemStatusResponse::deserialize(input)),
        "Failed to parse hex: cannot parse integer from empty string"
    );
    assert_eq!(*input, "0x\n");
    let input = &mut "0x10000\n";
    assert_eq!(
        decoding_fault(SystemStatusResponse::deserialize(input)),
        "Failed to parse hex: number too large to fit in target type"
    );
    assert_eq!(*input, "0x10000\n");
    let input = &mut "0224\n";
    assert_eq!(
        decoding_fault(SystemStatusResponse::deserialize(input)),
        "Expected literal `0x` not matched `0224\n`"
    );
    let input = &mut "0x0224";
    assert!(SystemStatusResponse::deserialize(input).is_err());
    assert_eq!(*input, "0x0224");
}

#[test]
fn status_word_0x0224_bit_by_bit() {
    let response = SystemStatusResponse { value: 0x0224 };
    assert_eq!(response.value, 0b10_0010_0100);
    assert!(!response.read_bit(0));
    assert!(!response.read_bit(1));
    assert!(response.read_bit(2));
    assert!(!response.read_bit(3));
    assert!(!response.read_bit(4));
    assert!(response.read_bit(5));
    assert!(!response.read_bit(6));
    assert!(!response.read_bit(7));
    assert!(!response.read_bit(8));
    assert!(response.read_bit(9));
    for bit in 10..16 {
        assert!(!response.read_bit(bit));
    }
    assert_eq!(response.decode_operation_mode().unwrap(), OperationMode::Independent);
    let status = response.decode().unwrap();
    assert_eq!(status.operation_mode, OperationMode::Independent);
    assert_eq!(status.channel_one.mode, ChannelMode::ConstantVoltage);
    assert_eq!(status.channel_two.mode, ChannelMode::ConstantVoltage);
    assert_eq!(status.channel_one.output, State::Off);
    assert_eq!(status.channel_two.output, State::On);
    assert_eq!(status.channel_one.timer, State::Off);
    assert_eq!(status.channel_two.timer, State::Off);
    assert_eq!(status.channel_one.display, DisplayMode::DigitalDisplay);
    assert_eq!(status.channel_two.display, DisplayMode::WaveformDisplay);
    assert_eq!(status.get(Channel::One), &status.channel_one);
    assert_eq!(status.get(Channel::Two), &status.channel_two);
    assert_eq!(status.get(Channel::Two).output, State::On);
}

#[test]
fn status_bits_are_independent_of_each_other() {
    let all = SystemStatusResponse { value: 0x03ff }.decode().unwrap();
    assert_eq!(all.operation_mode, OperationMode::Series);
    assert_eq!(all.channel_one.mode, ChannelMode::ConstantCurrent);
    assert_eq!(all.channel_two.mode, ChannelMode::ConstantCurrent);
    assert_eq!(all.channel_one.output, State::On);
    assert_eq!(all.channel_one.timer, State::On);
    assert_eq!(all.channel_two.timer, State::On);
    assert_eq!(all.channel_one.display, DisplayMode::WaveformDisplay);
    let one = SystemStatusResponse { value: 0b01_0101_1001 }.decode().unwrap();
    assert_eq!(one.operation_mode, OperationMode::Parallel);
    assert_eq!(one.channel_one.mode, ChannelMode::ConstantCurrent);
    assert_eq!(one.channel_two.mode, ChannelMode::ConstantVoltage);
    assert_eq!(one.channel_one.output, State::On);
    assert_eq!(one.channel_two.output, State::Off);
    assert_eq!(one.channel_one.timer, State::On);
    assert_eq!(one.channel_two.timer, State::Off);
    assert_eq!(one.channel_one.display, DisplayMode::WaveformDisplay);
    assert_eq!(one.channel_two.display, DisplayMode::DigitalDisplay);
}

#[test]
fn status_word_without_operation_mode_is_a_fault() {
    for value in [0x0000u16, 0x0003, 0x03f3, 0xfff3] {
        let response = SystemStatusResponse { value };
        assert_eq!(
            decoding_fault(response.decode_operation_mode()),
            "Received unexpected, invalid bit pattern `00` for operation mode!"
        );
        assert_eq!(
            decoding_fault(response.decode()),
            "Received unexpected, invalid bit pattern `00` for operation mode!"
        );
    }
}

#[test]
fn dhcp_state_has_a_tag() {
    let input = &mut "DHCP:ON\n";
    assert_eq!(GetDhcpResponse::deserialize(input).unwrap(), GetDhcpResponse { state: State::On });
    assert_eq!(*input, "");
    let input = &mut "DHCP:OFF\n";
    assert_eq!(GetDhcpResponse::deserialize(input).unwrap(), GetDhcpResponse { state: State::Off });
    let input = &mut "ON\n";
    assert_eq!(
        decoding_fault(GetDhcpResponse::deserialize(input)),
        "Expected literal `DHCP:` not matched `ON\n`"
    );
    let input = &mut "DHCP:MAYBE\n";
    assert_eq!(
        decoding_fault(GetDhcpResponse::deserialize(input)),
        "Unexpected token for State: `MAYBE\n`"
    );
    assert_eq!(*input, "DHCP:MAYBE\n");
    let input = &mut "DHCP:ON";
    assert!(GetDhcpResponse::deserialize(input).is_err());
    assert_eq!(*input, "DHCP:ON");
}

#[test]
fn address_is_dotted_decimal() {
    let address = Ipv4Addr::new(10, 11, 13, 214);
    assert_eq!(address.octets(), [10, 11, 13, 214]);
    assert_eq!(wire(&address), "10.11.13.214");
    assert_eq!(wire(&Ipv4Addr::new(0, 0, 0, 0)), "0.0.0.0");
    assert_eq!(wire(&Ipv4Addr::new(255, 255, 255, 255)), "255.255.255.255");
    let input = &mut "10.11.13.214";
    assert_eq!(Ipv4Addr::deserialize(input).unwrap(), address);
    assert_eq!(*input, "");
    let input = &mut "10.11.13.214 \n";
    assert_eq!(Ipv4Addr::deserialize(input).unwrap(), address);
    assert_eq!(*input, " \n");
}

#[test]
fn address_grammar_is_strict() {
    let accepted: [(&str, [u8; 4], &str); 8] = [
        ("0.0.0.0", [0, 0, 0, 0], ""),
        ("1.2.3.4", [1, 2, 3, 4], ""),
        ("255.255.255.0", [255, 255, 255, 0], ""),
        ("192.168.0.1", [192, 168, 0, 1], ""),
        ("1.2.3.4 ", [1, 2, 3, 4], " "),
        ("1.2.3.4\n", [1, 2, 3, 4], "\n"),
        ("1.2.3.4\t\r\n", [1, 2, 3, 4], "\t\r\n"),
        ("9.99.199.249", [9, 99, 199, 249], ""),
    ];
    for (text, octets, rest) in accepted {
        let input = &mut &text[..];
        assert_eq!(Ipv4Addr::deserialize(input).unwrap().octets(), octets, "for `{}`", text);
        assert_eq!(*input, rest);
    }
    for text in [
        "256.0.0.1", "1.2.3", "1.2.3.4.5", "01.2.3.4", "1.2.3.04", "1.2.3.", ".1.2.3", "1..2.3",
        "1.2.3.4x", "a.b.c.d", "", "1.2.3.0000", "00.0.0.0", "1.2.3.٤", "1,2,3,4", "1.2.3.-4",
    ] {
        let input = &mut &text[..];
        assert!(Ipv4Addr::deserialize(input).is_err(), "for `{}`", text);
        assert_eq!(*input, text);
    }
}

#[test]
fn address_faults_leave_the_cursor() {
    for text in [" 1.2.3.4", "1.2.3.4 x", "1.2.3.4,5", "1.2.3.256", "1.2.3.4.", "1.2.3.1234"] {
        let input = &mut &text[..];
        assert_eq!(
            decoding_fault(Ipv4Addr::deserialize(input)),
            "Failed to parse IPv4 Address: invalid IPv4 address syntax"
        );
        assert_eq!(*input, text);
    }
}

#[test]
fn every_address_number_is_read_back() {
    for octet in 0..=u8::MAX {
        let address = Ipv4Addr::new(octet, 255 - octet, octet, 0);
        let text = wire(&address) + "\n";
        let input = &mut text.as_str();
        assert_eq!(Ipv4Addr::deserialize(input).unwrap(), address);
        assert_eq!(*input, "\n");
    }
}

#[test]
fn network_settings_are_an_address_and_the_end_of_the_line() {
    let input = &mut "10.11.13.214\n";
    assert_eq!(
        GetIpAddressResponse::deserialize(input).unwrap(),
        GetIpAddressResponse { address: Ipv4Addr::new(10, 11, 13, 214) }
    );
    assert_eq!(*input, "");
    let input = &mut "255.255.255.0\n";
    assert_eq!(
        GetSubnetMaskResponse::deserialize(input).unwrap(),
        GetSubnetMaskResponse { mask: Ipv4Addr::new(255, 255, 255, 0) }
    );
    let input = &mut "10.11.13.1\n";
    assert_eq!(
        GetGatewayResponse::deserialize(input).unwrap(),
        GetGatewayResponse { gateway: Ipv4Addr::new(10, 11, 13, 1) }
    );
    let input = &mut "10.11.13.1 \n";
    assert_eq!(
        decoding_fault(GetGatewayResponse::deserialize(input)),
        "Expected literal `\n` not matched ` \n`"
    );
    assert_eq!(*input, "10.11.13.1 \n");
    let input = &mut "10.11.13\n";
    assert!(GetIpAddressResponse::deserialize(input).is_err());
    assert_eq!(*input, "10.11.13\n");
}

#[test]
fn tokens_convert_into_each_other() {
    assert_eq!(State::from(true), State::On);
    assert_eq!(State::from(false), State::Off);
    assert!(bool::from(State::On));
    assert!(!bool::from(State::Off));
    assert_eq!(-State::On, State::Off);
    assert_eq!(-State::Off, State::On);
    assert_eq!(DisplayMode::from(true), DisplayMode::WaveformDisplay);
    assert_eq!(DisplayMode::from(false), DisplayMode::DigitalDisplay);
    assert_eq!(ChannelMode::from(true), ChannelMode::ConstantCurrent);
    assert_eq!(ChannelMode::from(false), ChannelMode::ConstantVoltage);
    assert_eq!(Quantity::from(&LimitQuantity::Current), Quantity::Current);
    assert_eq!(Quantity::from(&LimitQuantity::Voltage), Quantity::Voltage);
    assert_eq!(OutputChannel::from(Channel::One), OutputChannel::One);
    assert_eq!(OutputChannel::from(Channel::Two), OutputChannel::Two);
    assert_eq!(Channel::try_from(OutputChannel::One), Ok(Channel::One));
    assert_eq!(Channel::try_from(OutputChannel::Two), Ok(Channel::Two));
    assert_eq!(Channel::try_from(OutputChannel::Three), Err(()));
    assert_eq!(Channel::try_from(1u8), Ok(Channel::One));
    assert_eq!(Channel::try_from(2u8), Ok(Channel::Two));
    assert_eq!(Channel::try_from(0u8), Err(()));
    assert_eq!(Channel::try_from(3u8), Err(()));
    assert_eq!(MemorySlot::try_from(1u8), Ok(MemorySlot::One));
    assert_eq!(MemorySlot::try_from(5u8), Ok(MemorySlot::Five));
    assert_eq!(MemorySlot::try_from(0u8), Err(()));
    assert_eq!(MemorySlot::try_from(6u8), Err(()));
}
