use rab::ctx::Ctx;

#[test]
fn a_run_begins_with_nothing_counted() {
    let ctx = Ctx::new(b"GET / HTTP/1.0\r\n\r\n".to_vec(), 10, 3);
    assert_eq!(0, ctx.total_responses());
    assert_eq!(0, ctx.sent_requests);
    assert_eq!(10, ctx.max_requests());
    assert_eq!(3, ctx.concurrency);
    assert_eq!(None, ctx.server_name);
    assert_eq!(None, ctx.doclen);
    assert_eq!(b"GET / HTTP/1.0\r\n\r\n".to_vec(), ctx.payload);
    assert!(ctx.is_valid());
    assert!(ctx.expect_more_responses());
    assert!(ctx.send_more());
    assert!(ctx.first_response());
}

#[test]
fn responses_are_counted_by_kind() {
    let mut ctx = Ctx::new(vec![], 4, 1);
    ctx.successful_response();
    ctx.successful_response();
    ctx.unsuccessful_response();
    assert_eq!(2, ctx.successful_responses);
    assert_eq!(1, ctx.unsuccessful_responses);
    assert_eq!(0, ctx.failed_responses);
    assert_eq!(3, ctx.total_responses());
    assert!(ctx.expect_more_responses());
    ctx.failed_response();
    assert_eq!(1, ctx.failed_responses);
    assert_eq!(4, ctx.total_responses());
    assert!(!ctx.expect_more_responses());
    assert!(ctx.is_valid());
}

#[test]
fn sends_stop_at_the_number_asked_for() {
    let mut ctx = Ctx::new(vec![], 2, 2);
    assert!(ctx.send_more());
    ctx.request_sent();
    assert!(ctx.send_more());
    ctx.request_sent();
    assert!(!ctx.send_more());
    assert_eq!(2, ctx.sent_requests());
    assert!(ctx.expect_more_responses());
}

#[test]
fn a_run_for_no_request_expects_nothing() {
    let ctx = Ctx::new(vec![], 0, 0);
    assert!(!ctx.expect_more_responses());
    assert!(!ctx.send_more());
}

#[test]
fn tokens_ascend_from_zero() {
    let mut ctx = Ctx::new(vec![], 1, 1);
    assert_eq!(0, ctx.next_token());
    assert_eq!(1, ctx.next_token());
    assert_eq!(2, ctx.next_token());
}

#[test]
fn the_server_is_identified_once() {
    let mut ctx = Ctx::new(vec![], 5, 1);
    ctx.identify_server(Some("gws".to_owned()), 120);
    assert_eq!(Some("gws".to_owned()), ctx.server_name);
    assert_eq!(Some(120), ctx.doclen);
    assert!(!ctx.first_response());
    ctx.identify_server(Some("other".to_owned()), 7);
    assert_eq!(Some("gws".to_owned()), ctx.server_name());
    assert_eq!(Some(120), ctx.doclen());
    ctx.identify_server(None, 9);
    assert_eq!(Some("gws".to_owned()), ctx.server_name);
    assert_eq!(Some(120), ctx.doclen);
}

#[test]
fn a_server_without_a_name_is_identified_as_empty() {
    let mut ctx = Ctx::new(vec![], 5, 1);
    ctx.identify_server(None, 33);
    assert_eq!(Some(String::new()), ctx.server_name);
    assert_eq!(Some(33), ctx.doclen);
    ctx.identify_server(Some("late".to_owned()), 1);
    assert_eq!(Some(String::new()), ctx.server_name);
    assert_eq!(Some(33), ctx.doclen);
}

#[test]
fn counters_beyond_the_number_asked_for_are_not_valid() {
    let mut ctx = Ctx::new(vec![], 1, 1);
    ctx.successful_responses = 2;
    assert!(!ctx.is_valid());
    let mut ctx = Ctx::new(vec![], 1, 1);
    ctx.sent_requests = 2;
    assert!(!ctx.is_valid());
    let mut ctx = Ctx::new(vec![], 2, 1);
    ctx.failed_responses = 1;
    ctx.unsuccessful_responses = 1;
    assert!(ctx.is_valid());
    ctx.successful_responses = 1;
    assert!(!ctx.is_valid());
}
