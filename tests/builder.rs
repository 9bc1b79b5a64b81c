use rs_ts_api::builder::RpcBuilder;

#[test]
fn new_builder_has_no_names() {
    let b = RpcBuilder::new();
    assert!(!b.is_taken("anything"));
}

#[test]
fn query_name_is_claimed_once() {
    let mut b = RpcBuilder::new();
    assert!(b.reserve_query("ping").is_ok());
    assert!(b.is_taken("ping"));
    let e = b.reserve_query("ping").err().unwrap();
    assert_eq!(e.name, "ping");
}

#[test]
fn subscription_claims_three_names() {
    let mut b = RpcBuilder::new();
    assert!(b.reserve_subscription("sub", "notif", "unsub").is_ok());
    assert!(b.is_taken("sub"));
    assert!(b.is_taken("notif"));
    assert!(b.is_taken("unsub"));
}

#[test]
fn subscription_with_taken_name_is_refused() {
    let mut b = RpcBuilder::new();
    assert!(b.reserve_query("notif").is_ok());
    let e = b.reserve_subscription("sub", "notif", "unsub").err().unwrap();
    assert_eq!(e.name, "notif");
    assert!(!b.is_taken("sub"));
    assert!(!b.is_taken("unsub"));
}

#[test]
fn subscription_with_repeated_name_is_refused() {
    let mut b = RpcBuilder::new();
    let e = b.reserve_subscription("sub", "notif", "sub").err().unwrap();
    assert_eq!(e.name, "sub");
    assert!(!b.is_taken("sub"));
    let e = b.reserve_subscription("sub", "sub", "unsub").err().unwrap();
    assert_eq!(e.name, "sub");
}

#[test]
fn taken_subscribe_name_is_reported_first() {
    let mut b = RpcBuilder::new();
    assert!(b.reserve_query("sub").is_ok());
    assert!(b.reserve_query("unsub").is_ok());
    let e = b.reserve_subscription("sub", "notif", "unsub").err().unwrap();
    assert_eq!(e.name, "sub");
}
