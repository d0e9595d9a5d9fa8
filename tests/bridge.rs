use dsmr_reader::bus::message_qos;
use dsmr_reader::config::Config;
use dsmr_reader::model::{to_messages, topic_for, Measurement, OutboundMessage};
use dsmr_reader::runner::{Action, Event, RunError, Runner};
use dsmr_reader::supervisor::{Phase, Recovery, Supervisor, BACKOFF_MS};

fn measurement(field: &str, value: &str, unit: &str) -> Measurement {
    Measurement { field: field.to_string(), value: value.to_string(), unit: unit.to_string() }
}

fn expect_publish(a: Action, topic: &str, payload: &str, qos: i32) {
    match a {
        Action::Publish(m) => {
            assert_eq!(m.topic, topic);
            assert_eq!(m.payload, payload);
            assert_eq!(m.qos, qos);
            assert!(!m.retain);
        }
        Action::ReadNext => panic!("expected a publish, got a read"),
        Action::Abort(e) => panic!("expected a publish, got an abort: {:?}", e),
    }
}

fn is_read_next(a: &Action) -> bool {
    matches!(a, Action::ReadNext)
}

fn abort_of(a: &Action) -> Option<RunError> {
    match a {
        Action::Abort(e) => Some(*e),
        _ => None,
    }
}

#[test]
fn end_to_end_power_and_energy() {
    let cfg = Config::resolve(None, Some("dsmr".to_string()), Some("0".to_string()), None);
    let mut runner = Runner::new(cfg.mqtt_topic_prefix.as_str(), cfg.mqtt_qos);
    let telegram = vec![Some(measurement("power", "1234", "W")), Some(measurement("energy", "56.7", "kWh"))];
    expect_publish(runner.handle(Event::Telegram(telegram)), "dsmr/power", "1234", 0);
    expect_publish(runner.handle(Event::Published), "dsmr/energy", "56.7", 0);
    assert!(is_read_next(&runner.handle(Event::Published)));
    assert_eq!(runner.failure(), None);
}

#[test]
fn clean_telegrams_are_published_in_order() {
    let mut runner = Runner::new("meter", 1);
    let t1 = vec![Some(measurement("a", "1", "W")), Some(measurement("b", "2", "W"))];
    let t2 = vec![Some(measurement("c", "3", "V"))];
    let mut topics: Vec<String> = Vec::new();
    for t in [t1, t2] {
        let mut a = runner.handle(Event::Telegram(t));
        while let Action::Publish(m) = a {
            topics.push(m.topic.clone());
            a = runner.handle(Event::Published);
        }
        assert!(is_read_next(&a));
    }
    assert_eq!(topics, vec!["meter/a", "meter/b", "meter/c"]);
    assert_eq!(runner.failure(), None);
}

#[test]
fn malformed_object_is_dropped() {
    let objects = vec![
        Some(measurement("power", "1", "W")),
        None,
        Some(measurement("voltage", "230.1", "V")),
        Some(measurement("current", "3", "A")),
    ];
    let msgs: Vec<OutboundMessage> = to_messages("dsmr", 0, &objects);
    assert_eq!(msgs.len(), 3);
    assert_eq!(msgs[0].topic, "dsmr/power");
    assert_eq!(msgs[1].topic, "dsmr/voltage");
    assert_eq!(msgs[1].payload, "230.1");
    assert_eq!(msgs[2].topic, "dsmr/current");
}

#[test]
fn telegram_without_decoded_objects_asks_for_next_readout() {
    let mut runner = Runner::new("dsmr", 0);
    assert!(is_read_next(&runner.handle(Event::Telegram(vec![None, None]))));
    assert!(!runner.is_publishing());
}

#[test]
fn decode_failure_aborts_and_supervisor_recovers() {
    let mut runner = Runner::new("dsmr", 0);
    let a = runner.handle(Event::DecodeFailed);
    assert_eq!(abort_of(&a), Some(RunError::Decode));
    assert_eq!(runner.failure(), Some(RunError::Decode));
    assert!(!runner.accepts(&Event::Telegram(vec![])));
    let mut sup = Supervisor::new();
    let r = sup.on_run_failed(RunError::Decode);
    assert_eq!(sup.phase, Phase::Recovering);
    assert_eq!(r, Recovery { report: RunError::Decode, disconnect: true, wait_ms: 5000 });
    assert_eq!(BACKOFF_MS, 5000);
}

#[test]
fn publish_failure_on_second_message() {
    let mut runner = Runner::new("dsmr", 0);
    let t = vec![
        Some(measurement("a", "1", "W")),
        Some(measurement("b", "2", "W")),
        Some(measurement("c", "3", "W")),
    ];
    expect_publish(runner.handle(Event::Telegram(t)), "dsmr/a", "1", 0);
    expect_publish(runner.handle(Event::Published), "dsmr/b", "2", 0);
    let a = runner.handle(Event::PublishFailed);
    assert_eq!(abort_of(&a), Some(RunError::Publish));
    assert!(!runner.accepts(&Event::Published));
    assert!(!runner.accepts(&Event::PublishFailed));
}

#[test]
fn exhausted_source_is_a_failure() {
    let mut runner = Runner::new("dsmr", 0);
    let a = runner.handle(Event::SourceExhausted);
    assert_eq!(abort_of(&a), Some(RunError::EndOfReader));
    let mut sup = Supervisor::new();
    let r1 = sup.on_run_failed(RunError::EndOfReader);
    sup.on_backoff_elapsed();
    assert_eq!(sup.phase, Phase::Running);
    let r2 = sup.on_run_failed(RunError::Read);
    assert_eq!(r1.wait_ms, r2.wait_ms);
    assert_eq!(r1.disconnect, r2.disconnect);
    assert_eq!(r1.report, RunError::EndOfReader);
    assert_eq!(r2.report, RunError::Read);
}

#[test]
fn read_failure_aborts() {
    let mut runner = Runner::new("dsmr", 0);
    assert!(runner.accepts(&Event::ReadFailed));
    assert!(!runner.accepts(&Event::Published));
    assert_eq!(abort_of(&runner.handle(Event::ReadFailed)), Some(RunError::Read));
}

#[test]
fn topic_joins_prefix_and_field() {
    assert_eq!(topic_for("dsmr", "power"), "dsmr/power");
    assert_eq!(topic_for("", "x"), "/x");
}

#[test]
fn config_defaults() {
    let d = Config::default();
    assert_eq!(d.mqtt_host, "tcp://10.10.10.13:1883");
    assert_eq!(d.mqtt_topic_prefix, "dsmr");
    assert_eq!(d.mqtt_qos, 0);
    assert_eq!(d.serial_port, "/dev/ttyUSB1");
    let r = Config::resolve(None, None, None, None);
    assert_eq!(r.mqtt_host, "tcp://10.10.10.13:1883");
    assert_eq!(r.serial_port, "/dev/ttyUSB1");
}

#[test]
fn config_given_settings() {
    let r = Config::resolve(
        Some("tcp://host:1883".to_string()),
        Some("home".to_string()),
        Some("1".to_string()),
        Some("/dev/ttyUSB0".to_string()),
    );
    assert_eq!(r.mqtt_host, "tcp://host:1883");
    assert_eq!(r.mqtt_topic_prefix, "home");
    assert_eq!(r.mqtt_qos, 1);
    assert_eq!(r.serial_port, "/dev/ttyUSB0");
}

#[test]
fn config_quality_parsing() {
    let q = |s: &str| Config::resolve(None, None, Some(s.to_string()), None).mqtt_qos;
    assert_eq!(q("2"), 2);
    assert_eq!(q("+2"), 2);
    assert_eq!(q("-3"), -3);
    assert_eq!(q("abc"), 0);
    assert_eq!(q(""), 0);
    assert_eq!(q(" 1"), 0);
    assert_eq!(q("99999999999"), 0);
}

#[test]
fn quality_levels_of_the_bus() {
    let msg = |qos: i32| OutboundMessage { topic: "t".to_string(), payload: "p".to_string(), qos, retain: false };
    assert_eq!(message_qos(&msg(0)), Some(rumqttc::QoS::AtMostOnce));
    assert_eq!(message_qos(&msg(1)), Some(rumqttc::QoS::AtLeastOnce));
    assert_eq!(message_qos(&msg(2)), Some(rumqttc::QoS::ExactlyOnce));
    assert_eq!(message_qos(&msg(3)), None);
    assert_eq!(message_qos(&msg(-1)), None);
}
