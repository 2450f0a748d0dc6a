use moy_sekret::{error, error_without_parent, AnyError, ErrorKind};

#[test]
fn an_error_without_parent_prints_its_own_message() {
    let e: Result<(), AnyError> =
        error_without_parent(ErrorKind::NotFound, "nothing here");
    let e = e.unwrap_err();
    assert_eq!(ErrorKind::NotFound, e.kind);
    assert_eq!("nothing here", e.to_message());
}

#[test]
fn wrapping_prints_the_chain_outermost_first() {
    let inner = AnyError::new(ErrorKind::PersistenceError, "disk full", None);
    let outer: Result<(), AnyError> = error("could not write", inner);
    let outer = outer.unwrap_err();
    assert_eq!(ErrorKind::PersistenceError, outer.kind);
    assert_eq!("could not write: disk full", outer.to_message());
}

#[test]
fn wrapping_carries_the_failure_class_outward() {
    let innermost = AnyError::new(ErrorKind::DecodeError, "bad digit", None);
    let middle: Result<(), AnyError> = error("bad key file", innermost);
    let outer: Result<(), AnyError> = error("bad profile", middle.unwrap_err());
    let outer = outer.unwrap_err();
    assert_eq!(ErrorKind::DecodeError, outer.kind);
    assert_eq!("bad profile: bad key file: bad digit", outer.to_message());
}
