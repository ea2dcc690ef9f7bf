use device_monitor::broker::{Action, Broker, Connection, Event};
use device_monitor::message::{frame_from_encoded, DeviceLog};
use device_monitor::reading::{heartbeat_reading, temperature_reading};
use device_monitor::registry::Registry;

fn log(device_id: &str, message: &str) -> DeviceLog {
    DeviceLog::new(device_id.to_string(), message.to_string())
}

fn subscribe(broker: &mut Broker, conn: &mut Connection, producer: &str) -> Action {
    broker.handle_event(conn, Event::Subscribe(producer.to_string()))
}

#[test]
fn scenario_subscribe_post_close_post() {
    let mut broker = Broker::new();
    let mut a = broker.open_connection().unwrap();
    assert_eq!(subscribe(&mut broker, &mut a, "1"), Action::Continue);

    let out = broker.fan_out(&log("1", "foo")).unwrap();
    assert_eq!(out.frame, r#"{"device_id":"1","message":"foo"}"#);
    assert_eq!(out.targets, vec![a.consumer()]);

    assert_eq!(broker.handle_event(&mut a, Event::Close), Action::Stop);
    assert!(a.is_closed());
    let out = broker.fan_out(&log("1", "foo")).unwrap();
    assert_eq!(out.frame, r#"{"device_id":"1","message":"foo"}"#);
    assert!(out.targets.is_empty());
}

#[test]
fn fan_out_reaches_exactly_the_subscribers() {
    let mut broker = Broker::new();
    let mut c1 = broker.open_connection().unwrap();
    let mut c2 = broker.open_connection().unwrap();
    let mut other = broker.open_connection().unwrap();
    subscribe(&mut broker, &mut c1, "p");
    subscribe(&mut broker, &mut c2, "p");
    subscribe(&mut broker, &mut other, "r");

    let out = broker.fan_out(&log("p", "reading")).unwrap();
    assert_eq!(out.targets, vec![c1.consumer(), c2.consumer()]);
    assert_eq!(out.frame, r#"{"device_id":"p","message":"reading"}"#);

    let out = broker.fan_out(&log("q", "reading")).unwrap();
    assert!(out.targets.is_empty());
}

#[test]
fn repeated_subscription_delivers_one_copy() {
    let mut broker = Broker::new();
    let mut c = broker.open_connection().unwrap();
    subscribe(&mut broker, &mut c, "7");
    subscribe(&mut broker, &mut c, "7");
    assert_eq!(broker.targets(&"7".to_string()), vec![c.consumer()]);
}

#[test]
fn closed_connection_is_removed_everywhere() {
    let mut broker = Broker::new();
    let mut c = broker.open_connection().unwrap();
    subscribe(&mut broker, &mut c, "1");
    subscribe(&mut broker, &mut c, "2");
    broker.handle_event(&mut c, Event::Close);
    assert!(broker.targets(&"1".to_string()).is_empty());
    assert!(broker.targets(&"2".to_string()).is_empty());

    let mut fresh = broker.open_connection().unwrap();
    assert_ne!(fresh.consumer(), c.consumer());
    subscribe(&mut broker, &mut fresh, "1");
    assert_eq!(broker.targets(&"1".to_string()), vec![fresh.consumer()]);
}

#[test]
fn read_error_also_unsubscribes() {
    let mut broker = Broker::new();
    let mut c = broker.open_connection().unwrap();
    let mut d = broker.open_connection().unwrap();
    subscribe(&mut broker, &mut c, "1");
    subscribe(&mut broker, &mut d, "1");
    assert_eq!(broker.handle_event(&mut c, Event::ReadError), Action::Stop);
    assert!(c.is_closed());
    assert_eq!(broker.targets(&"1".to_string()), vec![d.consumer()]);
}

#[test]
fn messages_reach_a_consumer_in_order() {
    let mut broker = Broker::new();
    let mut c = broker.open_connection().unwrap();
    subscribe(&mut broker, &mut c, "1");
    let first = broker.fan_out(&log("1", "m1")).unwrap();
    let second = broker.fan_out(&log("1", "m2")).unwrap();
    let mut received = Vec::new();
    for out in [first, second] {
        for t in &out.targets {
            if *t == c.consumer() {
                received.push(out.frame.clone());
            }
        }
    }
    assert_eq!(
        received,
        vec![
            r#"{"device_id":"1","message":"m1"}"#.to_string(),
            r#"{"device_id":"1","message":"m2"}"#.to_string()
        ]
    );
}

#[test]
fn malformed_directive_keeps_connection_open() {
    let mut broker = Broker::new();
    let mut c = broker.open_connection().unwrap();
    assert_eq!(broker.handle_event(&mut c, Event::Malformed), Action::Continue);
    assert_eq!(broker.handle_event(&mut c, Event::Undecodable), Action::Continue);
    assert_eq!(broker.handle_event(&mut c, Event::Ignored), Action::Continue);
    assert!(!c.is_closed());
    assert!(broker.targets(&"1".to_string()).is_empty());
    assert_eq!(subscribe(&mut broker, &mut c, "1"), Action::Continue);
    assert_eq!(broker.targets(&"1".to_string()), vec![c.consumer()]);
}

#[test]
fn events_after_close_change_nothing() {
    let mut broker = Broker::new();
    let mut c = broker.open_connection().unwrap();
    broker.handle_event(&mut c, Event::Close);
    assert_eq!(subscribe(&mut broker, &mut c, "1"), Action::Stop);
    assert!(broker.targets(&"1".to_string()).is_empty());
}

#[test]
fn connections_get_distinct_identities() {
    let mut broker = Broker::new();
    let a = broker.open_connection().unwrap();
    let b = broker.open_connection().unwrap();
    assert_eq!(a.consumer(), 0);
    assert_eq!(b.consumer(), 1);
    assert!(!a.is_closed());
}

#[test]
fn frame_escapes_json_strings() {
    let out = log("dev \"x\"", "line\nnext").to_frame().unwrap();
    assert_eq!(out, r#"{"device_id":"dev \"x\"","message":"line\nnext"}"#);
    let empty = log("", "").to_frame().unwrap();
    assert_eq!(empty, r#"{"device_id":"","message":""}"#);
}

#[test]
fn frame_from_encoded_fields() {
    assert_eq!(frame_from_encoded("\"a\"", "\"b\""), r#"{"device_id":"a","message":"b"}"#);
}

#[test]
fn registry_subscribe_and_unsubscribe() {
    let mut reg = Registry::new();
    let p = "dev".to_string();
    reg.subscribe(&p, 3);
    reg.subscribe(&p, 5);
    reg.subscribe(&p, 3);
    assert_eq!(reg.subscribers(&p), vec![3, 5]);
    reg.unsubscribe(3);
    assert_eq!(reg.subscribers(&p), vec![5]);
    reg.unsubscribe(5);
    assert!(reg.subscribers(&p).is_empty());
    assert!(reg.subscribers(&"other".to_string()).is_empty());
}

#[test]
fn readings_stay_in_range() {
    for seed in [0u64, 1, 42, u64::MAX] {
        let t = temperature_reading(seed);
        assert!((50..=110).contains(&t));
        let (cpu, mem) = heartbeat_reading(seed, seed.wrapping_add(1));
        assert!(cpu <= 100);
        assert!((1..=10000).contains(&mem));
    }
}
