use rhubarb::path::{check, Path};
use rhubarb::stable_string::StableString;
use rhubarb::stable_vec::StableVec;

#[test]
fn validation() {
    assert!(check(b"0123456789").is_ok());
    assert!(check(b"ABCDEFGHIJKLMNOPQRSTUVWXYZ").is_ok());
    assert!(check(b"abcdefghijklmnopqrstuvwxyz").is_ok());
    assert!(check(b".-_/").is_ok());

    assert!(check(b"/path/to-a-place-with-hyphens").is_ok());
    assert!(check(b"/path/to-a-place-with-hyphens_and_underscores").is_ok());
    assert!(check(b"path-without-any-slashes").is_ok());
    assert!(check(b"../relative-path").is_ok());
    assert!(check(b"..").is_ok());

    assert!(check(b"~/relative-to-home").is_err());
    assert!(check(b"$ENV_VAR").is_err());
    assert!(check(b";").is_err());
    assert!(check(b":").is_err());
    assert!(check(b"\"").is_err());
    assert!(check(b"\'").is_err());
    assert!(check(b" ").is_err());
}

#[test]
fn check_reports_first_bad_byte() {
    assert_eq!(check(b"abc def"), Err(3));
    assert_eq!(check(b"a:b:c"), Err(1));
    assert_eq!(check(b""), Ok(()));
}

#[test]
fn path_from_bytes_round_trip() {
    let path = Path::from_bytes(StableVec::from_vec(b"/bin/sh".to_vec())).ok().unwrap();
    assert_eq!(path.into_bytes().into_vec(), b"/bin/sh".to_vec());

    let err = Path::from_bytes(StableVec::from_vec(b"/bin/s h".to_vec())).err().unwrap();
    assert_eq!(err.valid_up_to, 6);
    assert_eq!(err.bytes.into_vec(), b"/bin/s h".to_vec());
}

#[test]
fn stable_string_checks_utf8() {
    let s = StableString::from_utf8(StableVec::from_vec("héllo".as_bytes().to_vec())).ok().unwrap();
    assert_eq!(s.into_bytes().into_vec(), "héllo".as_bytes().to_vec());

    let err = StableString::from_utf8(StableVec::from_vec(vec![0x66, 0xff, 0x66])).err().unwrap();
    assert_eq!(err.error.valid_up_to(), 1);
    assert_eq!(err.error, core::str::from_utf8(&[0x66, 0xff, 0x66]).unwrap_err());
    assert_eq!(err.bytes.into_vec(), vec![0x66, 0xff, 0x66]);
}

#[test]
fn stable_vec_from_vec() {
    let v: StableVec<u32> = StableVec::from(vec![1, 2, 3]);
    assert_eq!(v.len(), 3);
    assert_eq!(v.as_slice(), &[1, 2, 3]);
}
