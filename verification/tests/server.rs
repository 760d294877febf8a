use macroquad_fun::server::{
    check_record_request, is_tracking_tag_valid, is_version_valid, nonempty_string,
    parse_uuid_string, route_request, should_append, str_equals, InvalidUuid, RecordRejection,
    RecordRequest, Route,
};

#[test]
fn routes() {
    assert_eq!(route_request("/", "GET"), Route::Greeting);
    assert_eq!(route_request("/record", "POST"), Route::Record);
    assert_eq!(route_request("/record", "GET"), Route::MethodNotAllowed);
    assert_eq!(route_request("/records", "POST"), Route::NotFound);
    assert!(str_equals("héllo", "héllo"));
    assert!(!str_equals("héllo", "hello"));
}

#[test]
fn empty_strings_count_as_missing() {
    assert_eq!(nonempty_string(&Some(String::new())), None);
    assert_eq!(nonempty_string(&None), None);
    assert_eq!(nonempty_string(&Some("x".to_string())), Some(&"x".to_string()));
}

#[test]
fn uuids_are_parsed() {
    assert_eq!(parse_uuid_string(&None), Ok(None));
    assert_eq!(parse_uuid_string(&Some(String::new())), Ok(None));
    assert_eq!(
        parse_uuid_string(&Some("a1a2a3a4-b1b2-c1c2-d1d2-d3d4d5d6d7d8".to_string())),
        Ok(Some(0xa1a2a3a4b1b2c1c2d1d2d3d4d5d6d7d8))
    );
    assert_eq!(parse_uuid_string(&Some("nope".to_string())), Err(InvalidUuid));
}

#[test]
fn versions_and_tags() {
    assert!(is_version_valid(&"1.0.1".to_string()));
    assert!(!is_version_valid(&"1.0".to_string()));
    assert!(is_tracking_tag_valid(&"abc123".to_string()));
    assert!(is_tracking_tag_valid(&"".to_string()));
    assert!(!is_tracking_tag_valid(&"abc-123".to_string()));
    assert!(!is_tracking_tag_valid(&"abcdefghijk".to_string()));
    assert!(is_tracking_tag_valid(&"abcdefghij".to_string()));
    // Ten bytes at most: five two-byte letters fit, six do not.
    assert!(is_tracking_tag_valid(&"ééééé".to_string()));
    assert!(!is_tracking_tag_valid(&"éééééé".to_string()));
}

fn request(version: &str, tag: Option<&str>, prev_len: usize, id: Option<&str>) -> RecordRequest {
    RecordRequest {
        version: version.to_string(),
        tracking_tag: tag.map(|t| t.to_string()),
        prev_len,
        id: id.map(|i| i.to_string()),
    }
}

#[test]
fn record_requests_are_checked_in_order() {
    let uuid = "a1a2a3a4-b1b2-c1c2-d1d2-d3d4d5d6d7d8";
    assert_eq!(check_record_request(&request("bad", Some("-"), 5, None)).err(), Some(RecordRejection::MissingId));
    assert_eq!(check_record_request(&request("bad", Some("-"), 5, Some(uuid))).err(), Some(RecordRejection::InvalidVersion));
    assert_eq!(check_record_request(&request("1.0.0", Some("-"), 5, Some("x"))).err(), Some(RecordRejection::InvalidTrackingTag));
    assert_eq!(check_record_request(&request("1.0.0", Some("t"), 5, Some("x"))).err(), Some(RecordRejection::InvalidUuid));
    let target = check_record_request(&request("1.0.0", None, 0, None)).ok().unwrap();
    assert_eq!(target.tracking_tag, "anonymous");
    assert_eq!(target.version, "1.0.0");
    assert_eq!(target.uuid, None);
    let target = check_record_request(&request("2.1.0", Some("tag"), 5, Some(uuid))).ok().unwrap();
    assert_eq!(target.tracking_tag, "tag");
    assert_eq!(target.uuid, Some(0xa1a2a3a4b1b2c1c2d1d2d3d4d5d6d7d8));
}

#[test]
fn appends_only_when_lengths_agree() {
    assert!(should_append(0, 0));
    assert!(should_append(12, 12));
    assert!(!should_append(12, 4));
}

#[test]
fn repeated_delivery_is_applied_once() {
    // The first delivery of 5 bytes after an empty recording is appended...
    let mut recording_len: u64 = 0;
    if should_append(recording_len, 0) {
        recording_len += 5;
    }
    assert_eq!(recording_len, 5);
    // ...and the same request delivered again is not.
    assert!(!should_append(recording_len, 0));
}
