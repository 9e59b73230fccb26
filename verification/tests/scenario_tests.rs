use lb_9000::accountant::apply;
use lb_9000::dispatch::{AppConfig, Pool};
use lb_9000::error::Error;
use lb_9000::membership::{apply_event, MembershipEvent};
use lb_9000::registry::Registry;
use lb_9000::request::{http_request, Request};

fn pool() -> Pool {
    Pool::new(AppConfig {
        namespace: "default".to_string(),
        service_name: "backend".to_string(),
        selector: "app=backend".to_string(),
        container_port: 8080,
    })
}

fn request() -> Request {
    http_request("GET".to_string(), "/", None, &Vec::new(), Vec::new())
}

#[test]
fn end_to_end() {
    let pool = pool();
    let mut registry = Registry::new();

    assert_eq!(registry.select_least_loaded(), Err(Error::NoBackendsAvailable));
    assert_eq!(pool.begin(&registry, &request()).err(), Some(Error::NoBackendsAvailable));

    apply_event(&mut registry, &MembershipEvent::Added("10.0.0.1".to_string()));
    assert_eq!(registry.select_least_loaded(), Ok("10.0.0.1".to_string()));
    assert_eq!(registry.counter("10.0.0.1"), Some(0));

    let (flight, start) = pool.begin(&registry, &request()).unwrap();
    assert_eq!(flight.target(), "10.0.0.1");
    apply(&mut registry, &start);
    assert_eq!(registry.counter("10.0.0.1"), Some(1));
    let (delta, answer) = flight.finish(Some("ok"));
    assert_eq!(answer, Ok("ok"));
    apply(&mut registry, &delta);
    assert_eq!(registry.counter("10.0.0.1"), Some(0));

    apply_event(&mut registry, &MembershipEvent::Added("10.0.0.2".to_string()));
    let mut flights = Vec::new();
    for _ in 0..3 {
        let (flight, start) = pool.begin(&registry, &request()).unwrap();
        apply(&mut registry, &start);
        let first = registry.counter("10.0.0.1").unwrap();
        let second = registry.counter("10.0.0.2").unwrap();
        assert!((first - second).abs() <= 1);
        flights.push(flight);
    }
    assert_eq!(
        registry.counter("10.0.0.1").unwrap() + registry.counter("10.0.0.2").unwrap(),
        3
    );
    for flight in flights {
        let (delta, _) = flight.finish(Some("ok"));
        apply(&mut registry, &delta);
        let first = registry.counter("10.0.0.1").unwrap();
        let second = registry.counter("10.0.0.2").unwrap();
        assert!((first - second).abs() <= 2);
    }
    assert_eq!(registry.counter("10.0.0.1"), Some(0));
    assert_eq!(registry.counter("10.0.0.2"), Some(0));

    apply_event(&mut registry, &MembershipEvent::Removed("10.0.0.2".to_string()));
    let (flight, start) = pool.begin(&registry, &request()).unwrap();
    assert_eq!(flight.target(), "10.0.0.1");
    apply(&mut registry, &start);
    apply_event(&mut registry, &MembershipEvent::Removed("10.0.0.1".to_string()));
    assert!(!registry.contains("10.0.0.1"));
    let (delta, answer) = flight.finish::<&str>(None);
    assert_eq!(answer, Err(Error::BackendUnreachable));
    apply(&mut registry, &delta);
    assert!(!registry.contains("10.0.0.1"));
    assert!(registry.is_empty());
    assert_eq!(pool.begin(&registry, &request()).err(), Some(Error::NoBackendsAvailable));
}

#[test]
fn removed_and_readded_mid_flight_ends_at_zero() {
    let pool = pool();
    let mut registry = Registry::new();
    registry.upsert("10.0.0.1");
    let (flight, start) = pool.begin(&registry, &request()).unwrap();
    apply(&mut registry, &start);
    apply_event(&mut registry, &MembershipEvent::Removed("10.0.0.1".to_string()));
    apply_event(&mut registry, &MembershipEvent::Added("10.0.0.1".to_string()));
    assert_eq!(registry.counter("10.0.0.1"), Some(0));
    apply(&mut registry, &flight.abandon());
    assert_eq!(registry.counter("10.0.0.1"), Some(0));
}

#[test]
fn selection_spreads_requests_over_equal_backends() {
    let pool = pool();
    let mut registry = Registry::new();
    for name in ["a", "b", "c", "d"] {
        registry.upsert(name);
    }
    for round in 1..=40 {
        let (flight, start) = pool.begin(&registry, &request()).unwrap();
        apply(&mut registry, &start);
        let counters: Vec<i16> = registry.snapshot().into_iter().map(|item| item.1).collect();
        let low = *counters.iter().min().unwrap();
        let high = *counters.iter().max().unwrap();
        assert!(high - low <= 1);
        assert_eq!(counters.iter().map(|c| *c as i32).sum::<i32>(), round);
    }
}
