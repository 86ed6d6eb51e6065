//! Tests of the frame decoder and the gateway record decoder.

use deconz_exporter::event::{decode, DecodeError};
use deconz_exporter::gateway::gateway_from_text;
use deconz_exporter::num::Num;

fn frame(s: &str) -> Vec<u8> {
    s.as_bytes().to_vec()
}

const MINIMAL: &str = r#"{"t":"event","e":"changed","r":"sensors","id":"1","uniqueid":"u1"}"#;

#[test]
fn minimal_envelope_decodes() {
    let ev = decode(&frame(MINIMAL)).unwrap();
    assert_eq!(ev.type_, b"event".to_vec());
    assert_eq!(ev.event, b"changed".to_vec());
    assert_eq!(ev.resource, b"sensors".to_vec());
    assert_eq!(ev.id, b"1".to_vec());
    assert_eq!(ev.uniqueid, b"u1".to_vec());
    assert!(ev.attr.is_none());
    assert!(ev.config.is_none());
    assert!(ev.state.is_empty());
}

#[test]
fn text_that_is_no_json_is_rejected() {
    assert_eq!(decode(&frame("hello")).unwrap_err(), DecodeError::Malformed);
}

#[test]
fn missing_required_fields_are_rejected() {
    assert!(decode(&frame("{}")).is_err());
    assert!(decode(&frame(r#"{"t":"event","e":"changed","r":"sensors","id":"1"}"#)).is_err());
    assert!(decode(&frame(r#"{"e":"changed","r":"sensors","id":"1","uniqueid":"u"}"#)).is_err());
}

#[test]
fn mistyped_required_field_is_rejected() {
    assert!(decode(&frame(r#"{"t":5,"e":"changed","r":"sensors","id":"1","uniqueid":"u"}"#))
        .is_err());
}

#[test]
fn trailing_text_is_rejected() {
    let mut f = frame(MINIMAL);
    f.extend_from_slice(b" x");
    assert!(decode(&f).is_err());
}

#[test]
fn unknown_fields_and_nested_values_are_tolerated() {
    let ev = decode(&frame("{\"t\":\"event\",\"e\":\"changed\",\"r\":\"sensors\",\"id\":\"1\",\"uniqueid\":\"u1\",\"gid\":\"3\",\"scid\":null,\"group\":{\"lights\":[\"1\",\"2\"],\"scenes\":[]},\"extra\":[1,2,{\"deep\":[true,false,null]}]}"))
    .unwrap();
    assert_eq!(ev.id, b"1".to_vec());
}

#[test]
fn state_keeps_keys_in_order_with_numbers() {
    let ev = decode(&frame("{\"t\":\"event\",\"e\":\"changed\",\"r\":\"sensors\",\"id\":\"1\",\"uniqueid\":\"u1\",\"state\":{\"temperature\":2134,\"lastupdated\":\"2024-03-01\",\"on\":true}}"))
    .unwrap();
    assert_eq!(ev.state.len(), 3);
    assert_eq!(ev.state[0].0, b"temperature".to_vec());
    assert_eq!(ev.state[0].1, Some(Num { mant: 2134, scale: 0 }));
    assert_eq!(ev.state[1].0, b"lastupdated".to_vec());
    assert_eq!(ev.state[1].1, None);
    assert_eq!(ev.state[2].1, None);
}

#[test]
fn numbers_decode_exactly() {
    let ev = decode(&frame("{\"t\":\"event\",\"e\":\"changed\",\"r\":\"sensors\",\"id\":\"1\",\"uniqueid\":\"u1\",\"state\":{\"a\":100.01,\"b\":-0.5,\"c\":1.5e2,\"d\":25e-1,\"e\":0}}"))
    .unwrap();
    assert_eq!(ev.state[0].1, Some(Num { mant: 10001, scale: 2 }));
    assert_eq!(ev.state[1].1, Some(Num { mant: -5, scale: 1 }));
    assert_eq!(ev.state[2].1, Some(Num { mant: 150, scale: 0 }));
    assert_eq!(ev.state[3].1, Some(Num { mant: 25, scale: 1 }));
    assert_eq!(ev.state[4].1, Some(Num { mant: 0, scale: 0 }));
}

#[test]
fn oversized_numbers_are_rejected() {
    assert!(decode(&frame("{\"t\":\"event\",\"e\":\"changed\",\"r\":\"sensors\",\"id\":\"1\",\"uniqueid\":\"u1\",\"state\":{\"temperature\":1e40}}"))
    .is_err());
    assert!(decode(&frame("{\"t\":\"event\",\"e\":\"changed\",\"r\":\"sensors\",\"id\":\"1\",\"uniqueid\":\"u1\",\"state\":{\"temperature\":99999999999999999999}}"))
    .is_err());
}

#[test]
fn leading_zero_numbers_are_rejected() {
    assert!(decode(&frame("{\"t\":\"event\",\"e\":\"changed\",\"r\":\"sensors\",\"id\":\"1\",\"uniqueid\":\"u1\",\"state\":{\"temperature\":007}}"))
    .is_err());
}

#[test]
fn string_escapes_decode() {
    let ev = decode(&frame("{\"t\":\"event\",\"e\":\"changed\",\"r\":\"sensors\",\"id\":\"1\",\"uniqueid\":\"u1\",\"attr\":{\"manufacturername\":\"a\\\"b\",\"modelid\":\"m\\\\n\",\"name\":\"tab\\there\",\"swversion\":\"café\",\"type\":\"ZHATemperature\",\"uniqueid\":\"u1\"}}"))
    .unwrap();
    let attr = ev.attr.unwrap();
    assert_eq!(attr.manufacturername, b"a\"b".to_vec());
    assert_eq!(attr.modelid, b"m\\n".to_vec());
    assert_eq!(attr.name, b"tab\there".to_vec());
    assert_eq!(attr.swversion, Some("café".as_bytes().to_vec()));
}

#[test]
fn incomplete_config_section_is_rejected() {
    assert!(decode(&frame("{\"t\":\"event\",\"e\":\"changed\",\"r\":\"sensors\",\"id\":\"1\",\"uniqueid\":\"u1\",\"config\":{\"battery\":100}}"))
    .is_err());
}

#[test]
fn null_attr_and_null_config_mean_absent() {
    let ev = decode(&frame("{\"t\":\"event\",\"e\":\"changed\",\"r\":\"sensors\",\"id\":\"1\",\"uniqueid\":\"u1\",\"attr\":null,\"config\":null}"))
    .unwrap();
    assert!(ev.attr.is_none());
    assert!(ev.config.is_none());
}

#[test]
fn attr_with_null_swversion_decodes() {
    let ev = decode(&frame("{\"t\":\"event\",\"e\":\"changed\",\"r\":\"sensors\",\"id\":\"1\",\"uniqueid\":\"u1\",\"attr\":{\"manufacturername\":\"LUMI\",\"modelid\":\"m\",\"name\":\"n\",\"swversion\":null,\"type\":\"ZHAHumidity\",\"uniqueid\":\"u1\"}}"))
    .unwrap();
    assert_eq!(ev.attr.unwrap().swversion, None);
}

#[test]
fn whitespace_between_tokens_is_insignificant() {
    let ev = decode(&frame(
        " {\n\t\"t\" : \"event\" ,\r\n \"e\":\"changed\", \"r\" : \"sensors\", \"id\": \"1\" , \"uniqueid\" :\t\"u1\" }  ",
    ))
    .unwrap();
    assert_eq!(ev.id, b"1".to_vec());
}

#[test]
fn gateway_record_decodes() {
    let gw = gateway_from_text(&frame("{\"apiversion\":\"1.16.0\",\"bridgeid\":\"00212EFFFF07D25D\",\"devicename\":\"ConBee II\",\"dhcp\":true,\"gateway\":\"192.168.1.1\",\"ipaddress\":\"192.168.1.40\",\"linkbutton\":false,\"mac\":\"00:21:2e:07:d2:5d\",\"modelid\":\"deCONZ\",\"name\":\"Phoscon-GW\",\"swversion\":\"2.12.6\",\"websocketport\":4502,\"zigbeechannel\":15,\"whitelist\":{\"key\":{\"name\":\"app\"}}}"))
    .unwrap();
    assert_eq!(gw.apiversion, b"1.16.0".to_vec());
    assert_eq!(gw.bridgeid, b"00212EFFFF07D25D".to_vec());
    assert_eq!(gw.websocketport, 4502);
    assert_eq!(gw.zigbeechannel, 15);
    assert!(gw.dhcp);
    assert!(!gw.linkbutton);
}

#[test]
fn gateway_with_out_of_range_port_is_rejected() {
    assert!(gateway_from_text(&frame("{\"apiversion\":\"1\",\"bridgeid\":\"b\",\"devicename\":\"d\",\"dhcp\":true,\"gateway\":\"g\",\"ipaddress\":\"i\",\"linkbutton\":false,\"mac\":\"m\",\"modelid\":\"mo\",\"name\":\"n\",\"swversion\":\"s\",\"websocketport\":70000,\"zigbeechannel\":15}"))
    .is_err());
}
