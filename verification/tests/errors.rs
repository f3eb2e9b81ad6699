use siodb::DriverError;
use siodb::ErrorKind;

#[test]
fn new_keeps_the_message() {
    let e = DriverError::new("boom");
    assert_eq!(e.to_string(), "boom");
    assert_eq!(e.kind(), ErrorKind::Unclassified);
}

#[test]
fn with_kind_keeps_kind_and_message() {
    let e = DriverError::with_kind(ErrorKind::Misuse, "not now");
    assert_eq!(e.kind(), ErrorKind::Misuse);
    assert_eq!(e.to_string(), "not now");
}

#[test]
fn kinds_are_told_apart() {
    let kinds = [
        ErrorKind::Config,
        ErrorKind::Transport,
        ErrorKind::Auth,
        ErrorKind::Protocol,
        ErrorKind::Server,
        ErrorKind::Misuse,
        ErrorKind::Unclassified,
    ];
    for (i, a) in kinds.iter().enumerate() {
        for (j, b) in kinds.iter().enumerate() {
            assert_eq!(a == b, i == j);
        }
    }
}
