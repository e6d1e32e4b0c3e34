use typed_oid::prefix::valid_prefix_char;
use typed_oid::{Error, Prefix};

#[test]
fn valid() {
    assert!(valid_prefix_char(b'0'));
    assert!(valid_prefix_char(b'9'));
    assert!(valid_prefix_char(b'A'));
    assert!(valid_prefix_char(b'Z'));
    assert!(valid_prefix_char(b'a'));
    assert!(valid_prefix_char(b'z'));
}

#[test]
fn invalid() {
    assert!(!valid_prefix_char(b'/'));
    assert!(!valid_prefix_char(b':'));
    assert!(!valid_prefix_char(b'`'));
    assert!(!valid_prefix_char(b'{'));
    assert!(!valid_prefix_char(b'@'));
    assert!(!valid_prefix_char(b'['));
}

#[test]
fn from_str() {
    let pfx = "PFX".parse::<Prefix>();
    assert!(pfx.is_ok());
    assert_eq!(
        pfx.unwrap(),
        Prefix::from_slice_unchecked(&[b'P', b'F', b'X'])
    );
}

#[test]
fn from_str_err_char() {
    let pfx = "PF[".parse::<Prefix>();
    assert!(pfx.is_err());
    assert_eq!(pfx.unwrap_err(), Error::InvalidPrefix { valid_until: 2 });
}

#[test]
fn from_str_mixedcase() {
    let pfx = "PFx".parse::<Prefix>();
    assert!(pfx.is_ok());
    assert_eq!(
        pfx.unwrap(),
        Prefix::from_slice_unchecked(&[b'P', b'F', b'x'])
    );
}

#[test]
fn from_slice() {
    let arr: [u8; 3] = [b'P', b'F', b'X'];
    let pfx = Prefix::from_slice(arr.as_slice());
    assert!(pfx.is_ok());
    assert_eq!(pfx.unwrap().as_bytes(), &arr);
}

#[test]
fn from_slice_err_char() {
    let arr: [u8; 3] = [b'P', b'F', b']'];
    let pfx = Prefix::from_slice(arr.as_slice());
    assert!(pfx.is_err());
    assert_eq!(pfx.unwrap_err(), Error::InvalidPrefix { valid_until: 2 });
}

#[test]
fn from_slice_mixedcase() {
    let arr: [u8; 3] = [b'P', b'F', b'x'];
    let pfx = Prefix::from_slice(arr.as_slice());
    assert!(pfx.is_ok());
    assert_eq!(
        pfx.unwrap(),
        Prefix::from_slice_unchecked(&[b'P', b'F', b'x'])
    );
}

#[test]
fn to_string() {
    let pfx: Prefix = "PFx".parse().unwrap();
    assert_eq!("PFx".to_string(), pfx.to_string());
}

#[test]
fn prefix_first_invalid_byte_is_reported() {
    assert_eq!(
        Prefix::from_slice(b"ab-c_d").unwrap_err(),
        Error::InvalidPrefix { valid_until: 2 }
    );
    assert_eq!(
        Prefix::from_slice(b" x").unwrap_err(),
        Error::InvalidPrefix { valid_until: 0 }
    );
    assert_eq!(
        Prefix::from_slice(&[b'a', 0x80]).unwrap_err(),
        Error::InvalidPrefix { valid_until: 1 }
    );
}

#[test]
fn prefix_accepts_every_allowed_byte_and_no_other() {
    for c in 0u8..=255 {
        let ok = c.is_ascii_alphanumeric();
        assert_eq!(valid_prefix_char(c), ok, "byte {c}");
        assert_eq!(Prefix::from_slice(&[c]).is_ok(), ok, "byte {c}");
    }
}

#[test]
fn prefix_long_and_empty() {
    let long = "ABCDEFGHIJKLMNOPQRSTUVWXYZabcdefghijklmnopqrstuvwxyz0123456789";
    let pfx: Prefix = long.parse().unwrap();
    assert_eq!(pfx.to_string(), long);
    assert_eq!(pfx.clone(), pfx);
    let empty = Prefix::from_slice(b"").unwrap();
    assert_eq!(empty.to_string(), "");
    assert_ne!(empty, pfx);
}

#[test]
fn prefix_equality_is_case_sensitive() {
    let a: Prefix = "TST".parse().unwrap();
    let b: Prefix = "tst".parse().unwrap();
    assert_ne!(a, b);
    assert_eq!(a, "TST".parse::<Prefix>().unwrap());
}

#[test]
fn prefix_try_from_bytes_and_text() {
    let from_text = Prefix::try_from("PFx").unwrap();
    let from_bytes = Prefix::try_from(&b"PFx"[..]).unwrap();
    assert_eq!(from_text, from_bytes);
    assert_eq!(
        Prefix::try_from(&b"PF]"[..]).unwrap_err(),
        Error::InvalidPrefix { valid_until: 2 }
    );
}
