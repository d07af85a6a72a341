use dlcore::download::{
    first_response_kind, range_header_value, status_is_error, FirstResponseRejection, UrlKind,
};

#[test]
fn range_header_names_both_ends() {
    assert_eq!(range_header_value(0, 99), b"bytes=0-99".to_vec());
    assert_eq!(range_header_value(1024, 2047), b"bytes=1024-2047".to_vec());
    assert_eq!(
        range_header_value(u64::MAX, 10),
        b"bytes=18446744073709551615-10".to_vec()
    );
}

#[test]
fn partial_content_is_range_able() {
    match first_response_kind(206, "response") {
        Ok(UrlKind::RangeAble(r)) => assert_eq!(r, "response"),
        _ => panic!("expected a range-able URL"),
    }
    match first_response_kind(206, 7u8) {
        Ok(kind) => assert_eq!(*kind, 7u8),
        Err(_) => panic!("expected a range-able URL"),
    }
}

#[test]
fn full_content_is_not_range_able() {
    match first_response_kind(200, "response") {
        Ok(UrlKind::UnRangeAble(r)) => assert_eq!(r, "response"),
        _ => panic!("a 200 reply ignores the range"),
    }
    assert!(matches!(first_response_kind(204, 0u8), Ok(UrlKind::UnRangeAble(0))));
}

#[test]
fn error_statuses_are_rejected() {
    match first_response_kind(404, "response") {
        Err(FirstResponseRejection::ErrorStatus(r)) => assert_eq!(r, "response"),
        _ => panic!("expected an error status"),
    }
    assert!(matches!(first_response_kind(503, 1u8), Err(FirstResponseRejection::ErrorStatus(1))));
    assert!(matches!(first_response_kind(301, 2u8), Err(FirstResponseRejection::NoPartialResponse(2))));
    assert!(matches!(first_response_kind(199, 3u8), Err(FirstResponseRejection::NoPartialResponse(3))));
}

#[test]
fn error_status_classes() {
    assert!(status_is_error(400));
    assert!(status_is_error(404));
    assert!(status_is_error(599));
    assert!(!status_is_error(600));
    assert!(!status_is_error(399));
    assert!(!status_is_error(206));
}

#[test]
fn url_kind_response_of_either_kind() {
    let k = UrlKind::UnRangeAble(5u32);
    assert_eq!(*k, 5);
}
