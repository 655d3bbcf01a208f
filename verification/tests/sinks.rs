use fmt2io::ByteSink;
use fmt2io::IoError;
use fmt2io::IoErrorKind;
use fmt2io::ScriptedSink;
use fmt2io::VecSink;

#[test]
fn vec_sink_accepts_everything() {
    let mut sink = VecSink::new();
    assert!(sink.bytes().is_empty());
    assert!(sink.write_all(b"abc").is_ok());
    assert!(sink.write_all(b"").is_ok());
    assert!(sink.write_all(b"def").is_ok());
    assert_eq!(sink.into_bytes(), b"abcdef".to_vec());
}

#[test]
fn scripted_sink_follows_script() {
    let planned = IoError::new(IoErrorKind::Interrupted, String::from("busy"));
    let mut sink = ScriptedSink::new(vec![None, Some(planned), None]);
    assert!(sink.write_all(b"one").is_ok());
    assert_eq!(
        sink.write_all(b"two").unwrap_err(),
        IoError::new(IoErrorKind::Interrupted, String::from("busy"))
    );
    assert!(sink.write_all(b"three").is_ok());
    assert!(sink.write_all(b"past the script").is_ok());
    assert_eq!(sink.bytes().as_slice(), b"onethreepast the script");
}

#[test]
fn io_error_carries_kind_and_payload() {
    let e = IoError::new(IoErrorKind::WriteZero, String::from("no progress"));
    assert_eq!(e.kind, IoErrorKind::WriteZero);
    assert_eq!(e.message, "no progress");
    assert_ne!(
        e,
        IoError::new(IoErrorKind::WriteZero, String::from("other payload"))
    );
    assert_ne!(
        e,
        IoError::new(IoErrorKind::Other, String::from("no progress"))
    );
}
