use license::data::{License, LicenseError, SigningData, UserData};
use license::instant::Timestamp;
use license::license::SignatureCheck;

fn make_license() -> Result<License, LicenseError> {
    License::new()
        .with_feature("debug".to_string(), "parts1".to_string())?
        .with_feature("emails".to_string(), "email1, email2".to_string())?
        .with_feature("admin".to_string(), "fred, joe".to_string())?
        .with_feature("remote connect".to_string(), "yes".to_string())?
        .with_expiry("2024-02-28")?
        .with_max_users(10)?
        .with_keyphrase("new license being made".to_string())?
        .build()
}

fn make_early_license() -> Result<License, LicenseError> {
    License::new()
        .with_feature("debug".to_string(), "parts1".to_string())?
        .with_feature("emails".to_string(), "email1, email2".to_string())?
        .with_feature("admin".to_string(), "fred, joe".to_string())?
        .with_feature("remote connect".to_string(), "yes".to_string())?
        .with_expiry("2018-02-28")?
        .with_max_users(10)?
        .with_keyphrase("new license being made".to_string())?
        .build()
}

fn make_late_license() -> Result<License, LicenseError> {
    License::new()
        .with_feature("debug".to_string(), "parts1".to_string())?
        .with_expiry("9999-12-31")?
        .with_max_users(10)?
        .with_keyphrase("new license being made".to_string())?
        .build()
}

fn day(year: i32, month: u32, day: u32) -> Timestamp {
    Timestamp::at_midnight(year, month, day).unwrap()
}

#[test]
fn check_license_expired() {
    let lic = make_early_license().unwrap();
    let res = lic.check_license();
    assert_eq!(res.is_err(), true);
    assert!(matches!(res.unwrap_err(), LicenseError::Expired { .. }));
}

#[test]
fn check_license_not_expired() {
    let lic = make_license().unwrap();
    assert_eq!(lic.check_license_at(&day(2024, 1, 1)).is_err(), false);
}

#[test]
fn check_features() {
    let lic = make_license().unwrap();
    assert_eq!(lic.has_feature("emails"), true);
    assert_eq!(lic.has_feature("admin"), true);
    assert_eq!(lic.has_feature("debug"), true);
    assert_eq!(lic.has_feature("XXX"), false);
}

#[test]
fn verify() {
    let lic = make_license().unwrap();
    assert_eq!(lic.verify().is_err(), false);
}

#[test]
fn to_from_json() {
    let lic = make_license().unwrap();
    let lic_json = lic.all_to_json();
    let lic2 = License::all_from_json(&lic_json).unwrap();

    assert_eq!(lic, lic2);
}

#[test]
fn check_license_against_the_clock() {
    let lic = make_late_license().unwrap();
    assert_eq!(lic.check_license(), Ok(()));
    let old = make_license().unwrap();
    assert!(matches!(old.check_license(), Err(LicenseError::Expired(_))));
    assert_eq!(old.verify(), Ok(()));
}

#[test]
fn expiry_is_strict() {
    let lic = make_license().unwrap();
    let at_expiry = day(2024, 2, 28);
    let just_before = Timestamp::new(2024, 2, 27, 23, 59, 59, 999_999_999).unwrap();
    let just_after = Timestamp::new(2024, 2, 28, 0, 0, 0, 1).unwrap();
    assert_eq!(lic.check_license_at(&just_before), Ok(()));
    assert_eq!(
        lic.check_license_at(&at_expiry),
        Err(LicenseError::Expired("License has expired and is out of date.".to_string()))
    );
    assert!(matches!(lic.check_license_at(&just_after), Err(LicenseError::Expired(_))));
}

#[test]
fn scenario_sign_verify_and_features() {
    let lic = License::new()
        .with_max_users(10)
        .unwrap()
        .with_feature("debug".to_string(), "parts1".to_string())
        .unwrap()
        .with_feature("admin".to_string(), "fred,joe".to_string())
        .unwrap()
        .with_expiry("2024-02-28")
        .unwrap()
        .with_keyphrase("phrase".to_string())
        .unwrap()
        .build()
        .unwrap();
    assert_eq!(lic.verify(), Ok(()));
    assert_eq!(lic.check_signature(), SignatureCheck::Accepted);
    assert!(lic.has_feature("admin"));
    assert!(!lic.has_feature("xyz"));
    assert_eq!(lic.signing_data.sig_bytes.len(), 64);
    assert_eq!(lic.signing_data.pub_key.len(), 32);
}

#[test]
fn scenario_expired_but_signature_good() {
    let lic = License::new()
        .with_max_users(10)
        .unwrap()
        .with_feature("debug".to_string(), "parts1".to_string())
        .unwrap()
        .with_feature("admin".to_string(), "fred,joe".to_string())
        .unwrap()
        .with_expiry("2018-02-28")
        .unwrap()
        .with_keyphrase("phrase".to_string())
        .unwrap()
        .build()
        .unwrap();
    assert!(matches!(lic.check_license(), Err(LicenseError::Expired(_))));
    assert_eq!(lic.verify(), Ok(()));
}

#[test]
fn scenario_zero_seats_refused() {
    let res = License::new().with_max_users(0);
    assert_eq!(
        res,
        Err(LicenseError::UserDataError("Must have at least one user".to_string()))
    );
}

#[test]
fn builder_refuses_empty_input() {
    assert_eq!(
        License::new().with_feature("".to_string(), "v".to_string()),
        Err(LicenseError::UserDataError("Empty key supplied for feature".to_string()))
    );
    assert_eq!(
        License::new().with_feature("k".to_string(), "".to_string()),
        Err(LicenseError::UserDataError("Empty value supplied for feature".to_string()))
    );
    assert_eq!(
        License::new().with_feature("".to_string(), "".to_string()),
        Err(LicenseError::UserDataError("Empty key supplied for feature".to_string()))
    );
    assert_eq!(
        License::new().with_id("".to_string()),
        Err(LicenseError::UserDataError("Empty Id supplied".to_string()))
    );
    assert_eq!(
        License::new().with_keyphrase("".to_string()),
        Err(LicenseError::UserDataError("Empty keyphrase supplied".to_string()))
    );
}

#[test]
fn builder_sets_fields() {
    let lic = License::new()
        .with_id("abc".to_string())
        .unwrap()
        .with_max_users(3)
        .unwrap()
        .with_keyphrase("kp".to_string())
        .unwrap()
        .with_expiry("2030-01-02")
        .unwrap();
    assert_eq!(lic.user_data.id, "abc");
    assert_eq!(lic.user_data.max_users, 3);
    assert_eq!(lic.user_data.key_phrase, "kp");
    assert_eq!(lic.user_data.expires, day(2030, 1, 2));
    assert_eq!(lic.signing_data, SigningData::new());
}

#[test]
fn new_license_is_blank() {
    let lic = License::new();
    assert_eq!(lic.user_data.id.len(), 36);
    assert_eq!(lic.user_data.expires, Timestamp::earliest());
    assert_eq!(lic.user_data.features.len(), 0);
    assert_eq!(lic.user_data.max_users, 0);
    assert_eq!(lic.user_data.key_phrase, "");
    assert!(lic.signing_data.sig_bytes.is_empty());
    assert!(lic.signing_data.pub_key.is_empty());
    let other = UserData::new();
    assert_ne!(lic.user_data.id, other.id);
    let by_default = License::default();
    assert_eq!(by_default.user_data.max_users, 0);
    assert_eq!(SigningData::default(), SigningData::new());
    assert_eq!(UserData::default().key_phrase, "");
}

#[test]
fn expiry_text_is_refused_when_malformed() {
    assert!(matches!(License::new().with_expiry("28/02/2024"), Err(LicenseError::DateFormat(_))));
    assert!(matches!(License::new().with_expiry("2024-02-30"), Err(LicenseError::DateFormat(_))));
    assert!(matches!(License::new().with_expiry(""), Err(LicenseError::DateFormat(_))));
    assert!(matches!(License::new().with_expiry("2024-13-01"), Err(LicenseError::DateFormat(_))));
}

#[test]
fn expiry_date_from_numbers() {
    let lic = License::new().with_expiry_date(2024, 2, 29).unwrap();
    assert_eq!(lic.user_data.expires, day(2024, 2, 29));
    assert_eq!(
        License::new().with_expiry_date(2023, 2, 29),
        Err(LicenseError::DateFormat("input is out of range".to_string()))
    );
}

#[test]
fn duration_from_a_given_instant() {
    let now = Timestamp::new(2024, 2, 28, 23, 59, 58, 5).unwrap();
    let lic = License::new().with_duration_from(&now, 5).unwrap();
    assert_eq!(lic.user_data.expires, Timestamp::new(2024, 2, 29, 0, 0, 3, 5).unwrap());
    let back = License::new().with_duration_from(&now, -86_400).unwrap();
    assert_eq!(back.user_data.expires, Timestamp::new(2024, 2, 27, 23, 59, 58, 5).unwrap());
    assert_eq!(
        License::new().with_duration_from(&now, i64::MAX),
        Err(LicenseError::UserDataError("Duration is out of range".to_string()))
    );
}

#[test]
fn duration_from_the_clock() {
    let soon = License::new()
        .with_seconds_duration(3600)
        .unwrap()
        .with_keyphrase("k".to_string())
        .unwrap()
        .build()
        .unwrap();
    assert_eq!(soon.check_license(), Ok(()));
    let past = License::new()
        .with_seconds_duration(-5)
        .unwrap()
        .with_keyphrase("k".to_string())
        .unwrap()
        .build()
        .unwrap();
    assert!(matches!(past.check_license(), Err(LicenseError::Expired(_))));
    assert!(matches!(
        License::new().with_seconds_duration(i64::MAX),
        Err(LicenseError::UserDataError(_))
    ));
}

#[test]
fn signing_form_is_exact() {
    let lic = License::new()
        .with_id("id-1".to_string())
        .unwrap()
        .with_feature("debug".to_string(), "parts1".to_string())
        .unwrap()
        .with_feature("admin".to_string(), "fred, joe".to_string())
        .unwrap()
        .with_expiry("2024-02-28")
        .unwrap()
        .with_max_users(10)
        .unwrap()
        .with_keyphrase("phrase".to_string())
        .unwrap();
    assert_eq!(
        lic.user_data_to_json(),
        "{\"id\":\"id-1\",\"expires\":\"2024-02-28T00:00:00Z\",\"features\":{\"admin\":\"fred, joe\",\"debug\":\"parts1\"},\"max_users\":10,\"key_phrase\":\"phrase\"}"
    );
}

#[test]
fn signing_form_without_features() {
    let lic = License::new().with_id("x".to_string()).unwrap();
    assert_eq!(
        lic.user_data_to_json(),
        "{\"id\":\"x\",\"expires\":\"-262143-01-01T00:00:00Z\",\"features\":{},\"max_users\":0,\"key_phrase\":\"\"}"
    );
}

#[test]
fn signing_form_ignores_insertion_order() {
    let a = License::new()
        .with_id("x".to_string())
        .unwrap()
        .with_feature("b".to_string(), "2".to_string())
        .unwrap()
        .with_feature("a".to_string(), "1".to_string())
        .unwrap()
        .with_feature("c".to_string(), "3".to_string())
        .unwrap();
    let b = License::new()
        .with_id("x".to_string())
        .unwrap()
        .with_feature("c".to_string(), "3".to_string())
        .unwrap()
        .with_feature("a".to_string(), "0".to_string())
        .unwrap()
        .with_feature("b".to_string(), "2".to_string())
        .unwrap()
        .with_feature("a".to_string(), "1".to_string())
        .unwrap();
    assert_eq!(a.user_data_to_json(), b.user_data_to_json());
    assert_eq!(a.user_data.features, b.user_data.features);
    assert_eq!(a.user_data.features.len(), 3);
}

#[test]
fn overwritten_feature_takes_latest_value() {
    let lic = License::new()
        .with_feature("admin".to_string(), "fred".to_string())
        .unwrap()
        .with_feature("admin".to_string(), "joe".to_string())
        .unwrap();
    assert!(lic.has_feature("admin"));
    assert_eq!(lic.user_data.features.len(), 1);
    assert_eq!(lic.user_data.features.get("admin"), Some(&"joe".to_string()));
    assert_eq!(lic.user_data.features.get("root"), None);
    assert!(!License::new().has_feature("admin"));
}

#[test]
fn tampered_terms_do_not_verify() {
    let lic = make_license().unwrap();
    let edited = lic.with_feature("admin".to_string(), "fred, joe, eve".to_string()).unwrap();
    assert_eq!(
        edited.verify(),
        Err(LicenseError::SigningProblem(
            "The license file has been tampered with and is invalid.".to_string()
        ))
    );
    assert_eq!(edited.check_signature(), SignatureCheck::Rejected);
    assert!(matches!(edited.check_license_at(&day(2000, 1, 1)), Err(LicenseError::SigningProblem(_))));

    let seats = make_license().unwrap().with_max_users(11).unwrap();
    assert!(matches!(seats.verify(), Err(LicenseError::SigningProblem(_))));
    let phrase = make_license().unwrap().with_keyphrase("another phrase".to_string()).unwrap();
    assert!(matches!(phrase.verify(), Err(LicenseError::SigningProblem(_))));
    let later = make_license().unwrap().with_expiry("2099-01-01").unwrap();
    assert!(matches!(later.verify(), Err(LicenseError::SigningProblem(_))));
    let id = make_license().unwrap().with_id("someone else".to_string()).unwrap();
    assert!(matches!(id.verify(), Err(LicenseError::SigningProblem(_))));
}

#[test]
fn malformed_signing_data_is_an_error_not_a_crash() {
    let unsigned = License::new();
    assert_eq!(unsigned.check_signature(), SignatureCheck::MalformedSignature);
    assert!(matches!(unsigned.verify(), Err(LicenseError::SigningProblem(_))));

    let mut truncated = make_license().unwrap();
    truncated.signing_data.sig_bytes.pop();
    assert_eq!(truncated.check_signature(), SignatureCheck::MalformedSignature);

    let mut short_key = make_license().unwrap();
    short_key.signing_data.pub_key.truncate(5);
    assert_eq!(short_key.check_signature(), SignatureCheck::MalformedKey);
    assert!(matches!(short_key.verify(), Err(LicenseError::SigningProblem(_))));

    let mut no_key = make_license().unwrap();
    no_key.signing_data.pub_key.clear();
    assert_eq!(no_key.check_signature(), SignatureCheck::MalformedKey);

    let mut swapped = make_license().unwrap();
    swapped.signing_data.sig_bytes.reverse();
    assert!(matches!(swapped.verify(), Err(LicenseError::SigningProblem(_))));

    let mut flipped = make_license().unwrap();
    flipped.signing_data.sig_bytes[3] ^= 1;
    assert!(flipped.check_signature() != SignatureCheck::Accepted);

    let mut other_key = make_license().unwrap();
    other_key.signing_data.pub_key = make_license().unwrap().signing_data.pub_key;
    assert_eq!(other_key.check_signature(), SignatureCheck::Rejected);
}

#[test]
fn each_build_makes_its_own_key() {
    let a = make_license().unwrap();
    let b = make_license().unwrap();
    assert_ne!(a.signing_data.pub_key, b.signing_data.pub_key);
    assert_ne!(a.signing_data.sig_bytes, b.signing_data.sig_bytes);
}

#[test]
fn verdicts() {
    assert_eq!(SignatureCheck::Accepted.verdict(), Ok(()));
    let tampered = Err(LicenseError::SigningProblem(
        "The license file has been tampered with and is invalid.".to_string(),
    ));
    assert_eq!(SignatureCheck::Rejected.verdict(), tampered);
    assert_eq!(SignatureCheck::MalformedKey.verdict(), tampered);
    assert_eq!(SignatureCheck::MalformedSignature.verdict(), tampered);
    assert_eq!(SignatureCheck::TooLong.verdict(), tampered);
    assert_eq!(license::license::expiry_verdict(&day(2024, 1, 2), &day(2024, 1, 1)), Ok(()));
    assert!(license::license::expiry_verdict(&day(2024, 1, 1), &day(2024, 1, 1)).is_err());
}
