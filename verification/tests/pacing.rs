use pagepal::delay::{duration, Delay, Sites, MIN_INTERVAL};

#[test]
fn interval_is_two_seconds() {
    assert_eq!(duration(), 2000);
    assert_eq!(MIN_INTERVAL, 2000);
}

#[test]
fn first_request_to_a_host_never_waits() {
    let mut sites = Sites::new();
    assert_eq!(sites.access("example.com", 1000, 2000), 0);
    assert_eq!(sites.entries, vec![("example.com".to_string(), Delay(1000))]);
}

#[test]
fn second_request_to_a_host_waits_out_the_interval() {
    let mut sites = Sites::new();
    assert_eq!(sites.access("example.com", 1000, 2000), 0);
    assert_eq!(sites.access("example.com", 1500, 2000), 1500);
    assert_eq!(sites.entries, vec![("example.com".to_string(), Delay(3000))]);
    assert_eq!(sites.access("example.com", 1500, 2000), 3500);
    assert_eq!(sites.access("example.com", 7000, 2000), 0);
    assert_eq!(sites.access("example.com", 9000, 2000), 0);
    assert_eq!(sites.access("example.com", 9001, 2000), 1999);
}

#[test]
fn requests_to_different_hosts_do_not_wait_for_each_other() {
    let mut sites = Sites::new();
    assert_eq!(sites.access("a.example", 1000, 2000), 0);
    assert_eq!(sites.access("b.example", 1000, 2000), 0);
    assert_eq!(sites.access("a.example", 1000, 2000), 2000);
    assert_eq!(sites.access("c.example", 1001, 2000), 0);
    assert_eq!(sites.access("b.example", 1001, 2000), 1999);
    assert_eq!(sites.entries.len(), 3);
}

#[test]
fn delay_grants_after_the_interval_or_at_once() {
    let mut delay = Delay::new(100);
    assert_eq!(delay.delay_if(100, 50), 50);
    assert_eq!(delay, Delay(150));
    assert_eq!(delay.delay_if(200, 50), 0);
    assert_eq!(delay, Delay(200));
    assert_eq!(delay.delay_if(250, 50), 0);
    assert_eq!(delay, Delay(250));
    assert_eq!(delay.delay_if(0, 0), 250);
    assert_eq!(delay, Delay(250));
}

#[test]
fn grant_is_capped_at_the_greatest_time() {
    let mut delay = Delay::new(u64::MAX - 5);
    assert_eq!(delay.delay_if(10, 2000), u64::MAX - 10);
    assert_eq!(delay, Delay(u64::MAX));
}

#[test]
fn record_is_checked_for_hosts_that_stand_twice() {
    let mut sites = Sites::new();
    assert!(sites.check());
    sites.access("a.example", 0, 2000);
    sites.access("b.example", 0, 2000);
    sites.access("a.example", 0, 2000);
    assert!(sites.check());
    assert_eq!(sites.entries.len(), 2);
    sites.entries.push(("b.example".to_string(), Delay(5)));
    assert!(!sites.check());
}
