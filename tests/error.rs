use toydb::{Error, Result};

#[test]
fn message_of_texted_kinds_is_the_text() {
    assert_eq!(Error::Parse("unexpected end".to_string()).to_string(), "unexpected end");
    assert_eq!(Error::Value("division by zero".to_string()).to_string(), "division by zero");
    assert_eq!(Error::Config("bad level".to_string()).to_string(), "bad level");
    assert_eq!(Error::InvalidData("short row".to_string()).to_string(), "short row");
    assert_eq!(Error::Internal("channel closed".to_string()).to_string(), "channel closed");
}

#[test]
fn message_of_assert_has_prefix() {
    assert_eq!(Error::Assert("no schema".to_string()).to_string(), "assertion failed: no schema");
    assert_eq!(Error::Assert(String::new()).to_string(), "assertion failed: ");
}

#[test]
fn message_of_bare_kinds() {
    assert_eq!(Error::Abort.to_string(), "Operation aborted");
    assert_eq!(Error::Serialization.to_string(), "Serialization failure, retry transaction");
    assert_eq!(Error::ReadOnly.to_string(), "Read-only transaction");
}

#[test]
fn error_converts_into_failed_result() {
    let r: Result<u32> = Error::ReadOnly.into();
    assert_eq!(r, Err(Error::ReadOnly));
    let r: Result<String> = Result::from(Error::Value("x".to_string()));
    assert_eq!(r, Err(Error::Value("x".to_string())));
}

#[test]
fn parse_int_error_is_parse_kind() {
    let err = "12a".parse::<i64>().unwrap_err();
    let text = err.to_string();
    assert_eq!(Error::from(err), Error::Parse(text));
}

#[test]
fn parse_float_error_is_parse_kind() {
    let err = "1.2.3".parse::<f64>().unwrap_err();
    let text = err.to_string();
    assert_eq!(Error::from(err), Error::Parse(text));
}

#[test]
fn try_from_int_error_is_value_kind() {
    let err = u8::try_from(300i32).unwrap_err();
    let text = err.to_string();
    assert_eq!(Error::from(err), Error::Value(text));
}

#[test]
fn try_from_slice_error_is_internal_kind() {
    let bytes: &[u8] = &[1, 2, 3];
    let err = <[u8; 4]>::try_from(bytes).unwrap_err();
    let text = err.to_string();
    assert_eq!(Error::from(err), Error::Internal(text));
}

#[test]
fn utf8_error_is_internal_kind() {
    let err = String::from_utf8(vec![0xff, 0xfe]).unwrap_err();
    let text = err.to_string();
    assert_eq!(Error::from(err), Error::Internal(text));
}

#[test]
fn io_error_is_internal_kind() {
    let err = std::io::Error::new(std::io::ErrorKind::Other, "disk gone");
    assert_eq!(Error::from(err), Error::Internal("disk gone".to_string()));
}

#[test]
fn poison_error_is_internal_kind() {
    let err = std::sync::PoisonError::new(7u32);
    let text = err.to_string();
    assert_eq!(Error::from(err), Error::Internal(text));
}

#[test]
fn hex_error_is_internal_kind() {
    let err = hex::decode("zz").unwrap_err();
    let text = err.to_string();
    assert!(!text.is_empty());
    assert_eq!(Error::from(err), Error::Internal(text));
}

#[test]
fn regex_error_is_value_kind() {
    let err = regex::Regex::new("(").unwrap_err();
    let text = err.to_string();
    assert_eq!(Error::from(err), Error::Value(text));
}

#[test]
fn log_level_error_is_config_kind() {
    let err = "loud".parse::<log::Level>().unwrap_err();
    let text = err.to_string();
    assert_eq!(Error::from(err), Error::Config(text));
}

#[test]
fn bincode_error_is_invalid_data_kind() {
    let err = bincode::deserialize::<u64>(&[1, 2]).unwrap_err();
    let text = err.to_string();
    assert_eq!(Error::from(err), Error::InvalidData(text));
}

#[test]
fn channel_errors_are_internal_kind() {
    let (tx, rx) = crossbeam::channel::unbounded::<u8>();
    let err = rx.try_recv().unwrap_err();
    let text = err.to_string();
    assert_eq!(Error::from(err), Error::Internal(text));
    drop(rx);
    let err = tx.send(3).unwrap_err();
    let text = err.to_string();
    assert_eq!(Error::from(err), Error::Internal(text));
    let err = tx.try_send(4).unwrap_err();
    let text = err.to_string();
    assert_eq!(Error::from(err), Error::Internal(text));
    drop(tx);
    let (tx, rx) = crossbeam::channel::unbounded::<u8>();
    drop(tx);
    let err = rx.recv().unwrap_err();
    let text = err.to_string();
    assert_eq!(Error::from(err), Error::Internal(text));
}

#[test]
fn histogram_errors_are_internal_kind() {
    let err = hdrhistogram::Histogram::<u64>::new(6).unwrap_err();
    let text = err.to_string();
    assert_eq!(Error::from(err), Error::Internal(text));
    let mut h = hdrhistogram::Histogram::<u64>::new_with_bounds(1, 100, 2).unwrap();
    let err = h.record(1_000_000).unwrap_err();
    let text = err.to_string();
    assert_eq!(Error::from(err), Error::Internal(text));
}

#[test]
fn config_error_is_config_kind() {
    let err = config::ConfigError::Message("missing key".to_string());
    assert_eq!(Error::from(err), Error::Config("missing key".to_string()));
}

#[test]
fn readline_error_is_internal_kind() {
    let err = rustyline::error::ReadlineError::Interrupted;
    let text = err.to_string();
    assert_eq!(Error::from(err), Error::Internal(text));
}
