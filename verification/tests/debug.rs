use weldwm::debug::{
    accept_request, check_remote_address, collect_remote_screenshot_requests, complete_capture,
    restricted_methods, take_capture_request, DebugBridge, MissingMethod, RemoteAddressError,
    RemoteDebugStatus, RemoteMethod, RemoteScreenshotRequest,
};
use weldwm::text::write_decimal;

#[test]
fn accepts_strictly_increasing_request_ids() {
    let mut bridge = DebugBridge::default();
    let mut status = RemoteDebugStatus::default();

    accept_request(
        &RemoteScreenshotRequest {
            request_id: 4,
            path: "target/frame.png".to_owned(),
        },
        &mut bridge,
        &mut status,
    );

    assert_eq!(status.last_request_id, 4);
    assert_eq!(bridge.pending.len(), 1);
    assert!(status.error.is_empty());
}

#[test]
fn completes_invalid_requests_instead_of_leaving_clients_waiting() {
    let mut bridge = DebugBridge::default();
    let mut status = RemoteDebugStatus::default();

    accept_request(
        &RemoteScreenshotRequest {
            request_id: 1,
            path: String::new(),
        },
        &mut bridge,
        &mut status,
    );

    assert_eq!(status.completed_request_id, 1);
    assert!(!status.error.is_empty());
    assert!(bridge.pending.is_empty());
}

fn request(request_id: u64, path: &str) -> RemoteScreenshotRequest {
    RemoteScreenshotRequest { request_id, path: path.to_owned() }
}

#[test]
fn stale_requests_are_refused_with_both_numbers() {
    let mut bridge = DebugBridge::default();
    let mut status = RemoteDebugStatus::default();
    accept_request(&request(12, "a.png"), &mut bridge, &mut status);
    accept_request(&request(7, "b.png"), &mut bridge, &mut status);
    assert_eq!(status.error, "request_id 7 must be greater than 12");
    assert_eq!(status.completed_request_id, 7);
    assert_eq!(status.last_request_id, 12);
    assert_eq!(bridge.pending.len(), 1);
    accept_request(&request(u64::MAX, ""), &mut bridge, &mut status);
    assert_eq!(status.error, "screenshot path must not be empty");
    accept_request(&request(0, "c.png"), &mut bridge, &mut status);
    assert_eq!(
        status.error,
        "request_id 0 must be greater than 18446744073709551615"
    );
    assert_eq!(status.completed_request_id, u64::MAX);
}

#[test]
fn requests_are_served_in_order_and_answered() {
    let mut bridge = DebugBridge::default();
    let mut status = RemoteDebugStatus::default();
    assert_eq!(status.protocol_version, 1);
    let requests = vec![request(1, "a.png"), request(2, "b.png")];
    collect_remote_screenshot_requests(&requests, &mut bridge, &mut status);
    assert_eq!((status.frame, status.ready, status.idle), (1, false, false));
    let none = Vec::new();
    collect_remote_screenshot_requests(&none, &mut bridge, &mut status);
    collect_remote_screenshot_requests(&none, &mut bridge, &mut status);
    assert_eq!((status.frame, status.ready), (3, true));

    let first = take_capture_request(&mut bridge, &mut status).expect("oldest request");
    assert_eq!((first.request_id, first.path.as_str()), (1, "a.png"));
    complete_capture(&mut bridge, &mut status, 9, Ok(()));
    assert_eq!(status.completed_request_id, 0);
    complete_capture(&mut bridge, &mut status, 1, Err("disk full".to_owned()));
    assert_eq!(status.completed_request_id, 1);
    assert_eq!(status.error, "disk full");
    assert!(!status.idle);
    let second = take_capture_request(&mut bridge, &mut status).expect("next request");
    assert_eq!(second.request_id, 2);
    assert!(take_capture_request(&mut bridge, &mut status).is_none());
    complete_capture(&mut bridge, &mut status, 2, Ok(()));
    assert!(status.error.is_empty());
    assert!(status.idle);
}

#[test]
fn the_endpoint_stays_on_this_machine() {
    assert_eq!(check_remote_address(true, 15_702), Ok(()));
    assert_eq!(
        check_remote_address(false, 15_702),
        Err(RemoteAddressError::NotLoopback)
    );
    assert_eq!(
        check_remote_address(true, 15_703),
        Err(RemoteAddressError::ReservedPort)
    );
}

#[test]
fn refusals_write_numbers_out() {
    let mut bridge = DebugBridge::default();
    let mut status = RemoteDebugStatus::default();
    accept_request(&request(u64::MAX, "a.png"), &mut bridge, &mut status);
    accept_request(&request(1_020, "b.png"), &mut bridge, &mut status);
    assert_eq!(
        status.error,
        "request_id 1020 must be greater than 18446744073709551615"
    );
    accept_request(&request(0, "c.png"), &mut bridge, &mut status);
    assert_eq!(
        status.error,
        "request_id 0 must be greater than 18446744073709551615"
    );
    let mut text = "n=".to_owned();
    write_decimal(&mut text, 9_876_543_210);
    assert_eq!(text, "n=9876543210");
}

#[test]
fn clients_may_call_three_methods() {
    let named = |names: &[&str]| names.iter().map(|name| name.to_string()).collect::<Vec<_>>();
    assert_eq!(
        restricted_methods(&named(&[
            "world.query",
            "world.get_resources",
            "rpc.discover",
            "world.despawn_entity",
            "world.write_message",
        ])),
        Ok(vec![2, 4, 1])
    );
    let missing = |names: &[&str]| restricted_methods(&named(names)).err();
    assert_eq!(missing(&[]), Some(MissingMethod(RemoteMethod::Discover)));
    assert_eq!(
        missing(&["rpc.discover", "world.get_resources"]),
        Some(MissingMethod(RemoteMethod::WriteMessage))
    );
    assert_eq!(
        missing(&["world.write_message", "rpc.discover", "world.get_resource"]),
        Some(MissingMethod(RemoteMethod::GetResource))
    );
    assert_eq!(RemoteMethod::WriteMessage.name(), "world.write_message");
}
