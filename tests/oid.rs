use std::collections::HashMap;

use surrealdb::sql::{Id, Thing};
use typed_oid::{Error, ErrorKind, Oid, OidPrefix, Result};
use uuid::{NoContext, Timestamp, Uuid};
use wildmatch::WildMatch;

#[derive(Debug, PartialEq, Eq)]
struct Tst;
impl OidPrefix for Tst {
    fn prefix() -> &'static str {
        "Tst"
    }
}

#[derive(Debug)]
struct TestingTesting;
impl OidPrefix for TestingTesting {
    fn prefix() -> &'static str {
        "TestingTesting"
    }
}

#[derive(Debug)]
struct TstTable;
impl OidPrefix for TstTable {
    fn prefix() -> &'static str {
        "Tst"
    }
    fn str_partial_eq(s: &str) -> bool {
        "test" == s
    }
}

#[derive(Debug)]
struct EXA;
impl OidPrefix for EXA {
    fn prefix() -> &'static str {
        "EXA"
    }
}

#[derive(Debug)]
struct Apple;
impl OidPrefix for Apple {
    fn prefix() -> &'static str {
        "A"
    }
    fn str_partial_eq(s: &str) -> bool {
        "apple" == s
    }
}

#[derive(Debug)]
struct Bad;
impl OidPrefix for Bad {
    fn prefix() -> &'static str {
        "B_d"
    }
}

#[test]
fn typed_oid() {
    #[allow(unused_variables)]
    let oid: Oid<Tst> = Oid::new_v4();
    let oid: Oid<Tst> = Oid::new_v7_now();
    assert!(
        WildMatch::new("Tst-??????????????????????????").matches(&oid.to_string()),
        "{}",
        oid.to_string()
    );

    let res = "Tst-0OUS781P4LU7V000PA2A2BN1GC".parse::<Oid<Tst>>();
    assert!(res.is_ok());
    let oid: Oid<Tst> = res.unwrap();
    assert_eq!(
        oid.uuid(),
        "063dc3a0-3925-7c7f-8000-ca84a12ee183"
            .parse::<Uuid>()
            .unwrap()
            .as_bytes()
    );

    let res = "Frm-0OUS781P4LU7V000PA2A2BN1GC".parse::<Oid<Tst>>();
    assert!(res.is_err());
    assert_eq!(res.unwrap_err(), Error::InvalidPrefix { valid_until: 0 });
}

#[test]
fn oid_from_uuid_str() {
    let oid: Oid<Tst> = Oid::try_with_uuid("063dc3a0-3925-7c7f-8000-ca84a12ee183").unwrap();
    assert!(
        WildMatch::new("Tst-??????????????????????????").matches(&oid.to_string()),
        "{}",
        oid.to_string()
    );
}

#[test]
fn oid_from_uuid_str_b32h() {
    let oid: Oid<Tst> = Oid::try_with_uuid_base32("0OUS781P4LU7V000PA2A2BN1GC").unwrap();
    assert_eq!("Tst-0OUS781P4LU7V000PA2A2BN1GC", &oid.to_string());
}

#[test]
fn oid_hash() {
    let oid: Oid<Tst> = Oid::try_with_uuid("063dc3a0-3925-7c7f-8000-ca84a12ee183").unwrap();

    let mut map = HashMap::new();
    map.insert(oid, "test");
}

#[test]
fn long_typed_oid() {
    #[allow(unused_variables)]
    let oid: Oid<TestingTesting> = Oid::new_v4();
    let oid: Oid<TestingTesting> = Oid::new_v7_now();
    assert!(
        WildMatch::new("TestingTesting-??????????????????????????").matches(&oid.to_string()),
        "{}",
        oid.to_string()
    );

    let res = "TestingTesting-0OUS781P4LU7V000PA2A2BN1GC".parse::<Oid<TestingTesting>>();
    assert!(res.is_ok());
    let oid: Oid<TestingTesting> = res.unwrap();
    assert_eq!(
        oid.uuid(),
        "063dc3a0-3925-7c7f-8000-ca84a12ee183"
            .parse::<Uuid>()
            .unwrap()
            .as_bytes()
    );

    let res = "Frm-0OUS781P4LU7V000PA2A2BN1GC".parse::<Oid<TestingTesting>>();
    assert!(res.is_err());
    assert_eq!(res.unwrap_err(), Error::InvalidPrefix { valid_until: 0 });
}

#[test]
fn uuid() {
    let thing = Thing {
        tb: "test".to_string(),
        id: Id::String("063dc3a0-3925-7c7f-8000-ca84a12ee183".to_string()),
    };

    let toid: Result<Oid<TstTable>> = thing.try_into();
    assert!(toid.is_ok());
}

#[test]
fn uuid_base32() {
    let thing = Thing {
        tb: "test".to_string(),
        id: Id::String("0OUS781P4LU7V000PA2A2BN1GC".to_string()),
    };

    let toid: Result<Oid<TstTable>> = thing.try_into();
    assert!(toid.is_ok());
}

#[test]
fn oid_example_parses_and_renders_back() {
    let text = "EXA-4GKFGPRVND4QT3PDR90PDKF66O";
    let oid: Oid<EXA> = text.parse().unwrap();
    let expected = "2428f867-7fbb-49ae-8f2d-da4196d1e636".parse::<Uuid>().unwrap();
    assert_eq!(oid.uuid(), expected.as_bytes());
    assert_eq!(oid.to_string(), text);
    assert_eq!(oid.value(), "4GKFGPRVND4QT3PDR90PDKF66O");
    assert_eq!(Oid::<EXA>::with_uuid(*expected.as_bytes()), oid);

    let raw = "b3cfdafa-3fec-41e2-82bf-ff881131abf1".parse::<Uuid>().unwrap();
    let oid: Oid<EXA> = Oid::with_uuid(*raw.as_bytes());
    assert_eq!(oid.to_string(), "EXA-MF7TLUHVTH0U50LVVU412CDBU4");
    let back: Oid<EXA> = oid.to_string().parse().unwrap();
    assert_eq!(back, oid);
}

#[test]
fn oid_wrong_prefix_reports_divergence() {
    let res = "FAIL-4GKFGPRVND4QT3PDR90PDKF66O".parse::<Oid<EXA>>();
    assert_eq!(res.unwrap_err(), Error::InvalidPrefix { valid_until: 0 });
    let res = "EXB-4GKFGPRVND4QT3PDR90PDKF66O".parse::<Oid<EXA>>();
    assert_eq!(res.unwrap_err(), Error::InvalidPrefix { valid_until: 2 });
    // one prefix begins the other: they part where the shorter ends
    let res = "EX-4GKFGPRVND4QT3PDR90PDKF66O".parse::<Oid<EXA>>();
    assert_eq!(res.unwrap_err(), Error::InvalidPrefix { valid_until: 2 });
    let res = "EXAM-4GKFGPRVND4QT3PDR90PDKF66O".parse::<Oid<EXA>>();
    assert_eq!(res.unwrap_err(), Error::InvalidPrefix { valid_until: 3 });
    // the prefix is checked before the value
    let res = "exa-".parse::<Oid<EXA>>();
    assert_eq!(res.unwrap_err(), Error::InvalidPrefix { valid_until: 0 });
}

#[test]
fn oid_error_order() {
    assert_eq!(
        "-4GKFGPRVND4QT3PDR90PDKF66O".parse::<Oid<EXA>>().unwrap_err(),
        Error::MissingPrefix
    );
    assert_eq!(
        "4GKFGPRVND4QT3PDR90PDKF66O".parse::<Oid<EXA>>().unwrap_err(),
        Error::MissingSeparator
    );
    assert_eq!("EXA-".parse::<Oid<EXA>>().unwrap_err(), Error::MissingValue);
    assert!(matches!(
        "EXA-&GKFGPRVND4QT3PDR90PDKF66O".parse::<Oid<EXA>>().unwrap_err(),
        Error::Base32Decode(_)
    ));
    // a valid text of other than sixteen bytes
    assert!(matches!(
        "EXA-4GKFGPRV".parse::<Oid<EXA>>().unwrap_err(),
        Error::Uuid(_)
    ));
    assert_eq!(
        "".parse::<Oid<EXA>>().unwrap_err().kind(),
        ErrorKind::MissingSeparator
    );
}

#[test]
fn oid_loose_match_accepts_alternate_prefix() {
    let oid: Oid<Apple> = "apple-4GKFGPRVND4QT3PDR90PDKF66O".parse().unwrap();
    assert_eq!(oid.to_string(), "A-4GKFGPRVND4QT3PDR90PDKF66O");
    assert!("A-4GKFGPRVND4QT3PDR90PDKF66O".parse::<Oid<Apple>>().is_ok());
    assert_eq!(
        "pear-4GKFGPRVND4QT3PDR90PDKF66O".parse::<Oid<Apple>>().unwrap_err(),
        Error::InvalidPrefix { valid_until: 0 }
    );
}

#[test]
fn oid_prefix_of_marker() {
    let oid: Oid<EXA> = Oid::new_v4();
    assert_eq!(oid.prefix().unwrap().to_string(), "EXA");
    let bad: Oid<Bad> = Oid::new_v4();
    assert_eq!(bad.prefix().unwrap_err(), Error::InvalidPrefix { valid_until: 1 });
}

#[test]
fn oid_generated_versions() {
    let v4: Oid<EXA> = Oid::new_v4();
    assert_eq!(v4.uuid()[6] >> 4, 4);
    assert_eq!(v4.uuid()[8] >> 6, 2);
    let v7: Oid<EXA> = Oid::new_v7_now();
    assert_eq!(v7.uuid()[6] >> 4, 7);
    assert_eq!(v7.uuid()[8] >> 6, 2);
    let ts = Timestamp::from_unix(NoContext, 1497624119, 1234);
    let v7: Oid<EXA> = Oid::new_v7(ts);
    assert_eq!(Uuid::from_bytes(*v7.uuid()).get_version_num(), 7);
    assert!(Uuid::from_bytes(*v7.uuid())
        .hyphenated()
        .to_string()
        .starts_with("015cb15a-86d8-7"));
}

#[test]
fn oid_uuid_text_forms() {
    let bytes = *"936da01f-9abd-4d9d-80c7-02af85c822a8".parse::<Uuid>().unwrap().as_bytes();
    for text in [
        "936da01f9abd4d9d80c702af85c822a8",
        "936DA01F-9ABD-4D9D-80C7-02AF85C822A8",
        "{936da01f-9abd-4d9d-80c7-02af85c822a8}",
        "URN:uuid:936da01f-9abd-4d9d-80c7-02af85c822a8",
    ] {
        let oid: Oid<EXA> = Oid::try_with_uuid(text).unwrap();
        assert_eq!(oid.uuid(), &bytes, "{text}");
    }
    for text in [
        "",
        "936da01f-9abd-4d9d-80c7-02af85c822a",
        "936da01f+9abd-4d9d-80c7-02af85c822a8",
        "936da01g9abd4d9d80c702af85c822a8",
        "urn:uid::936da01f-9abd-4d9d-80c7-02af85c822a8",
    ] {
        let res = Oid::<EXA>::try_with_uuid(text);
        assert!(matches!(res, Err(Error::Uuid(_))), "{text}");
    }
}

#[test]
fn oid_thing_checks_table_and_id() {
    let thing = Thing {
        tb: "other".to_string(),
        id: Id::String("063dc3a0-3925-7c7f-8000-ca84a12ee183".to_string()),
    };
    let toid: Result<Oid<TstTable>> = Oid::try_from_thing(thing);
    assert_eq!(toid.unwrap_err(), Error::InvalidPrefix { valid_until: 0 });

    let thing = Thing {
        tb: "test".to_string(),
        id: Id::String("0OUS781P4LU7V000PA2A2BN1GC".to_string()),
    };
    let toid: Oid<TstTable> = Oid::try_from_thing(thing).unwrap();
    assert_eq!(
        toid.uuid(),
        "063dc3a0-3925-7c7f-8000-ca84a12ee183".parse::<Uuid>().unwrap().as_bytes()
    );

    let thing = Thing {
        tb: "test".to_string(),
        id: Id::Number(7),
    };
    let toid: Result<Oid<TstTable>> = Oid::try_from_thing(thing);
    assert!(matches!(toid, Err(Error::Base32Decode(_))));
}

#[test]
fn oid_copies_compare_equal() {
    let a: Oid<EXA> = Oid::new_v4();
    let b = a;
    assert_eq!(a, b);
    assert_eq!(a.clone(), b);
    let c: Oid<EXA> = Oid::new_v4();
    assert_ne!(a, c);
}

#[test]
fn oid_record_from_plain_parts() {
    let oid: Oid<TstTable> =
        Oid::try_from_record("test", "063dc3a0-3925-7c7f-8000-ca84a12ee183").unwrap();
    assert_eq!(oid.to_string(), "Tst-0OUS781P4LU7V000PA2A2BN1GC");
    let oid: Oid<TstTable> = Oid::try_from_record("test", "0OUS781P4LU7V000PA2A2BN1GC").unwrap();
    assert_eq!(oid.value(), "0OUS781P4LU7V000PA2A2BN1GC");
    assert_eq!(
        Oid::<TstTable>::try_from_record("Tsx", "anything").unwrap_err(),
        Error::InvalidPrefix { valid_until: 2 }
    );
    assert_eq!(
        Oid::<TstTable>::try_from_record("test", "").unwrap_err(),
        Error::MissingValue
    );
    // the table is checked against the loose match only
    assert_eq!(
        Oid::<TstTable>::try_from_record("Tst", "0OUS781P4LU7V000PA2A2BN1GC").unwrap_err(),
        Error::InvalidPrefix { valid_until: 3 }
    );
}
