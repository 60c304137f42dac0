use rorex::state::App;

#[test]
fn fresh_state_defaults() {
    let app = App::new();
    assert_eq!(app.api_key, "");
    assert_eq!(app.base.as_str(), "USD");
    assert_eq!(app.target.as_str(), "EUR");
    assert!(app.rate.is_none());
    assert!(app.trend.is_empty());
    assert!(app.historical.is_empty());
}

#[test]
fn fetched_rate_updates_the_display() {
    let mut app = App::new();
    app.apply_message(Some(b"0.92".to_vec()));
    assert_eq!(app.rate, Some(b"0.92".to_vec()));
}

#[test]
fn failed_fetch_keeps_the_previous_rate() {
    let mut app = App::new();
    app.apply_message(Some(b"0.92".to_vec()));
    app.apply_message(None);
    assert_eq!(app.rate, Some(b"0.92".to_vec()));
}

#[test]
fn failed_fetch_before_any_success_shows_nothing() {
    let mut app = App::new();
    app.apply_message(None);
    assert!(app.rate.is_none());
}

#[test]
fn drain_consumes_one_message_per_call() {
    let mut app = App::new();
    let mut queue = vec![Some(b"0.92".to_vec()), Some(b"0.95".to_vec())];
    app.drain(&mut queue);
    assert_eq!(queue.len(), 1);
    assert_eq!(app.rate, Some(b"0.92".to_vec()));
    app.drain(&mut queue);
    assert_eq!(queue.len(), 0);
    assert_eq!(app.rate, Some(b"0.95".to_vec()));
}

#[test]
fn drain_of_an_empty_queue_changes_nothing() {
    let mut app = App::new();
    let mut queue: Vec<Option<Vec<u8>>> = Vec::new();
    app.drain(&mut queue);
    assert!(app.rate.is_none());
    assert_eq!(queue.len(), 0);
}

#[test]
fn drained_absence_message_keeps_the_rate() {
    let mut app = App::new();
    app.apply_message(Some(b"0.92".to_vec()));
    let mut queue = vec![None];
    app.drain(&mut queue);
    assert_eq!(queue.len(), 0);
    assert_eq!(app.rate, Some(b"0.92".to_vec()));
}
