use vmm_sys_util::error::{call_result, non_null, Error, ErrorKind};

#[test]
fn a_failed_call_reports_its_code() {
    assert!(call_result(true, 5).is_ok());
    assert_eq!(call_result(false, 5).unwrap_err().raw_os_error(), Some(5));
    assert_eq!(non_null(7, 5).unwrap(), 7);
    assert_eq!(non_null(0, 5).unwrap_err().raw_os_error(), Some(5));
}

#[test]
fn an_error_tells_its_kind_code_and_message() {
    let e = Error::new(ErrorKind::Unsupported, "no");
    assert_eq!(e.kind(), Some(ErrorKind::Unsupported));
    assert_eq!(e.message(), Some("no"));
    assert_eq!(e.raw_os_error(), None);
    let e = Error::Simple(ErrorKind::NotFound);
    assert_eq!(e.kind(), Some(ErrorKind::NotFound));
    assert_eq!(e.message(), None);
    let e = Error::Os(995);
    assert_eq!(e.kind(), None);
    assert_eq!(e.raw_os_error(), Some(995));
}
