//! End-to-end tests of the projection engine: frames in, exposition out.

use deconz_exporter::event::decode;
use deconz_exporter::gateway::gateway_from_text;
use deconz_exporter::project::{metrics, process, process_frame, record_gateway, Outcome, State};

fn frame(s: &str) -> Vec<u8> {
    s.as_bytes().to_vec()
}

fn snapshot(st: &State) -> String {
    String::from_utf8(metrics(st)).unwrap()
}

fn feed(st: &mut State, s: &str) -> Outcome {
    let ev = decode(&frame(s)).expect("frame should decode");
    process(&ev, st)
}

const IDENTITY_LIVING_ROOM: &str = "{\"t\":\"event\",\"e\":\"changed\",\"r\":\"sensors\",\"id\":\"2\",\"uniqueid\":\"00:15:8d:aa\",\"attr\":{\"manufacturername\":\"LUMI\",\"modelid\":\"lumi.weather\",\"name\":\"Living room\",\"swversion\":\"20191205\",\"type\":\"ZHATemperature\",\"uniqueid\":\"00:15:8d:aa\"}}";

#[test]
fn fresh_state_renders_five_empty_gauges() {
    let st = State::new();
    let expected = "# HELP gateway_info Gateway static info\n# TYPE gateway_info gauge\n# HELP battery Battery level in percentage\n# TYPE battery gauge\n# HELP temperature_celsius Temperature in degree Celsius\n# TYPE temperature_celsius gauge\n# HELP pressure_hpa Pressure in hPa\n# TYPE pressure_hpa gauge\n# HELP humidity_ratio Relative humidity in percentage\n# TYPE humidity_ratio gauge\n";
    assert_eq!(snapshot(&st), expected);
}

#[test]
fn identity_then_temperature_is_scaled_down() {
    let mut st = State::new();
    assert_eq!(feed(&mut st, IDENTITY_LIVING_ROOM), Outcome::IdentityStored);
    let o = feed(
        &mut st,
        "{\"t\":\"event\",\"e\":\"changed\",\"r\":\"sensors\",\"id\":\"2\",\"uniqueid\":\"00:15:8d:aa\",\"state\":{\"lastupdated\":\"2024-03-01T10:00:00.000\",\"temperature\":2090}}",
    );
    assert_eq!(o, Outcome::StateApplied);
    let text = snapshot(&st);
    assert!(text.contains("temperature_celsius{manufacturername=\"LUMI\",modelid=\"lumi.weather\",name=\"Living room\",swversion=\"20191205\",type=\"ZHATemperature\"} 20.9\n"));
}

#[test]
fn humidity_is_scaled_down() {
    let mut st = State::new();
    feed(&mut st, IDENTITY_LIVING_ROOM);
    let o = feed(
        &mut st,
        "{\"t\":\"event\",\"e\":\"changed\",\"r\":\"sensors\",\"id\":\"2\",\"uniqueid\":\"00:15:8d:aa\",\"state\":{\"humidity\":4917}}",
    );
    assert_eq!(o, Outcome::StateApplied);
    let text = snapshot(&st);
    assert!(text.contains("humidity_ratio{"));
    assert!(text.contains("} 49.17\n"));
}

#[test]
fn pressure_is_never_scaled() {
    let mut st = State::new();
    feed(&mut st, IDENTITY_LIVING_ROOM);
    let o = feed(
        &mut st,
        "{\"t\":\"event\",\"e\":\"changed\",\"r\":\"sensors\",\"id\":\"2\",\"uniqueid\":\"00:15:8d:aa\",\"state\":{\"pressure\":1003}}",
    );
    assert_eq!(o, Outcome::StateApplied);
    let text = snapshot(&st);
    assert!(text.contains("} 1003\n"));
    assert!(text.contains("pressure_hpa{"));
}

#[test]
fn battery_config_has_no_type_label() {
    let mut st = State::new();
    feed(&mut st, IDENTITY_LIVING_ROOM);
    let o = feed(
        &mut st,
        "{\"t\":\"event\",\"e\":\"changed\",\"r\":\"sensors\",\"id\":\"2\",\"uniqueid\":\"00:15:8d:aa\",\"config\":{\"battery\":100,\"offset\":0,\"on\":true,\"reachable\":true}}",
    );
    assert_eq!(o, Outcome::ConfigApplied);
    let text = snapshot(&st);
    assert!(text.contains("battery{manufacturername=\"LUMI\",modelid=\"lumi.weather\",name=\"Living room\",swversion=\"20191205\"} 100\n"));
}

#[test]
fn config_for_unknown_sensor_changes_nothing() {
    let mut st = State::new();
    let before = snapshot(&st);
    let raw = "{\"t\":\"event\",\"e\":\"changed\",\"r\":\"sensors\",\"id\":\"9\",\"uniqueid\":\"00:ff\",\"config\":{\"battery\":55,\"offset\":0,\"on\":true,\"reachable\":true}}";
    let o = feed(&mut st, raw);
    assert_eq!(o, Outcome::UnknownSensor);
    assert_eq!(snapshot(&st), before);
    // the whole frame is answered by the warning outcome, never an error
    assert_eq!(process_frame(&frame(raw), &mut st), Ok(Outcome::UnknownSensor));
    assert_eq!(snapshot(&st), before);
}

#[test]
fn state_before_identity_changes_nothing() {
    let mut st = State::new();
    let before = snapshot(&st);
    let o = feed(
        &mut st,
        "{\"t\":\"event\",\"e\":\"changed\",\"r\":\"sensors\",\"id\":\"7\",\"uniqueid\":\"00:aa\",\"state\":{\"temperature\":2100}}",
    );
    assert_eq!(o, Outcome::UnknownSensor);
    assert_eq!(snapshot(&st), before);
}

#[test]
fn later_identity_overwrites_earlier_name() {
    let mut st = State::new();
    feed(&mut st, IDENTITY_LIVING_ROOM);
    let o = feed(
        &mut st,
        "{\"t\":\"event\",\"e\":\"changed\",\"r\":\"sensors\",\"id\":\"2\",\"uniqueid\":\"00:15:8d:aa\",\"attr\":{\"manufacturername\":\"LUMI\",\"modelid\":\"lumi.weather\",\"name\":\"Bedroom\",\"swversion\":\"20191205\",\"type\":\"ZHATemperature\",\"uniqueid\":\"00:15:8d:aa\"}}",
    );
    assert_eq!(o, Outcome::IdentityStored);
    feed(
        &mut st,
        "{\"t\":\"event\",\"e\":\"changed\",\"r\":\"sensors\",\"id\":\"2\",\"uniqueid\":\"00:15:8d:aa\",\"state\":{\"temperature\":2000}}",
    );
    let text = snapshot(&st);
    assert!(text.contains(r#"name="Bedroom""#));
    assert!(!text.contains(r#"name="Living room""#));
}

#[test]
fn malformed_frame_is_contained_and_next_frame_lands() {
    let mut st = State::new();
    feed(&mut st, IDENTITY_LIVING_ROOM);
    let before = snapshot(&st);
    let bad = process_frame(&frame("{ not json at all"), &mut st);
    assert!(bad.is_err());
    assert_eq!(snapshot(&st), before);
    let good = process_frame(
        &frame("{\"t\":\"event\",\"e\":\"changed\",\"r\":\"sensors\",\"id\":\"2\",\"uniqueid\":\"00:15:8d:aa\",\"state\":{\"pressure\":990}}"),
        &mut st,
    );
    assert_eq!(good.unwrap(), Outcome::StateApplied);
    assert!(snapshot(&st).contains("} 990\n"));
}

#[test]
fn all_recognized_keys_of_one_payload_are_projected() {
    let mut st = State::new();
    feed(&mut st, IDENTITY_LIVING_ROOM);
    feed(
        &mut st,
        "{\"t\":\"event\",\"e\":\"changed\",\"r\":\"sensors\",\"id\":\"2\",\"uniqueid\":\"00:15:8d:aa\",\"state\":{\"temperature\":2134,\"humidity\":4500,\"pressure\":1008,\"lastupdated\":\"x\"}}",
    );
    let text = snapshot(&st);
    assert!(text.contains("} 21.34\n"));
    assert!(text.contains("} 45\n"));
    assert!(text.contains("} 1008\n"));
}

#[test]
fn later_reading_overwrites_earlier_sample() {
    let mut st = State::new();
    feed(&mut st, IDENTITY_LIVING_ROOM);
    feed(
        &mut st,
        "{\"t\":\"event\",\"e\":\"changed\",\"r\":\"sensors\",\"id\":\"2\",\"uniqueid\":\"00:15:8d:aa\",\"state\":{\"pressure\":1001}}",
    );
    feed(
        &mut st,
        "{\"t\":\"event\",\"e\":\"changed\",\"r\":\"sensors\",\"id\":\"2\",\"uniqueid\":\"00:15:8d:aa\",\"state\":{\"pressure\":1002}}",
    );
    let text = snapshot(&st);
    assert!(!text.contains("} 1001\n"));
    assert!(text.contains("} 1002\n"));
    assert_eq!(text.matches("pressure_hpa{").count(), 1);
}

#[test]
fn identity_payload_takes_priority_and_emits_nothing() {
    let mut st = State::new();
    let o = feed(
        &mut st,
        "{\"t\":\"event\",\"e\":\"changed\",\"r\":\"sensors\",\"id\":\"2\",\"uniqueid\":\"00:15:8d:aa\",\"attr\":{\"manufacturername\":\"LUMI\",\"modelid\":\"lumi.weather\",\"name\":\"Living room\",\"swversion\":\"20191205\",\"type\":\"ZHATemperature\",\"uniqueid\":\"00:15:8d:aa\"},\"state\":{\"temperature\":2090}}",
    );
    assert_eq!(o, Outcome::IdentityStored);
    assert!(!snapshot(&st).contains("temperature_celsius{"));
}

#[test]
fn non_changed_events_are_ignored() {
    let mut st = State::new();
    let o = feed(
        &mut st,
        "{\"t\":\"event\",\"e\":\"scene-called\",\"r\":\"scenes\",\"id\":\"1\",\"uniqueid\":\"g1\",\"state\":{\"temperature\":2090}}",
    );
    assert_eq!(o, Outcome::Ignored);
}

#[test]
fn non_numeric_readings_are_ignored() {
    let mut st = State::new();
    feed(&mut st, IDENTITY_LIVING_ROOM);
    let o = feed(
        &mut st,
        "{\"t\":\"event\",\"e\":\"changed\",\"r\":\"sensors\",\"id\":\"2\",\"uniqueid\":\"00:15:8d:aa\",\"state\":{\"temperature\":\"warm\",\"buttonevent\":1002}}",
    );
    assert_eq!(o, Outcome::StateApplied);
    assert!(!snapshot(&st).contains("temperature_celsius{"));
}

#[test]
fn missing_firmware_version_renders_empty_label() {
    let mut st = State::new();
    feed(
        &mut st,
        "{\"t\":\"event\",\"e\":\"changed\",\"r\":\"sensors\",\"id\":\"4\",\"uniqueid\":\"00:bb\",\"attr\":{\"manufacturername\":\"LUMI\",\"modelid\":\"lumi.weather\",\"name\":\"Attic\",\"type\":\"ZHAPressure\",\"uniqueid\":\"00:bb\"}}",
    );
    feed(
        &mut st,
        "{\"t\":\"event\",\"e\":\"changed\",\"r\":\"sensors\",\"id\":\"4\",\"uniqueid\":\"00:bb\",\"state\":{\"pressure\":999}}",
    );
    assert!(snapshot(&st).contains(r#"swversion="""#));
}

#[test]
fn label_values_are_escaped_in_exposition() {
    let mut st = State::new();
    feed(
        &mut st,
        "{\"t\":\"event\",\"e\":\"changed\",\"r\":\"sensors\",\"id\":\"5\",\"uniqueid\":\"00:cc\",\"attr\":{\"manufacturername\":\"LUMI\",\"modelid\":\"lumi.weather\",\"name\":\"a\\\"b\\\\c\",\"swversion\":\"1\",\"type\":\"ZHAPressure\",\"uniqueid\":\"00:cc\"}}",
    );
    feed(
        &mut st,
        "{\"t\":\"event\",\"e\":\"changed\",\"r\":\"sensors\",\"id\":\"5\",\"uniqueid\":\"00:cc\",\"state\":{\"pressure\":1000}}",
    );
    assert!(snapshot(&st).contains(r#"name="a\"b\\c""#));
}

#[test]
fn negative_reading_is_normalized_and_signed() {
    let mut st = State::new();
    feed(&mut st, IDENTITY_LIVING_ROOM);
    feed(
        &mut st,
        "{\"t\":\"event\",\"e\":\"changed\",\"r\":\"sensors\",\"id\":\"2\",\"uniqueid\":\"00:15:8d:aa\",\"state\":{\"temperature\":-550}}",
    );
    assert!(snapshot(&st).contains("} -5.5\n"));
}

#[test]
fn gateway_identity_is_served_as_info_gauge() {
    let mut st = State::new();
    let gw = gateway_from_text(&frame("{\"apiversion\":\"1.16.0\",\"bridgeid\":\"00212EFFFF07D25D\",\"devicename\":\"ConBee II\",\"dhcp\":true,\"gateway\":\"192.168.1.1\",\"ipaddress\":\"192.168.1.40\",\"linkbutton\":false,\"mac\":\"00:21:2e:07:d2:5d\",\"modelid\":\"deCONZ\",\"name\":\"Phoscon-GW\",\"swversion\":\"2.12.6\",\"websocketport\":4502,\"zigbeechannel\":15}"))
    .unwrap();
    record_gateway(&mut st, &gw);
    assert!(snapshot(&st)
        .contains("gateway_info{name=\"Phoscon-GW\",apiversion=\"1.16.0\"} 1\n"));
}
