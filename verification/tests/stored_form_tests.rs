use license::data::{License, LicenseError};
use license::instant::Timestamp;
use license::loading::{features_from_members, find_member, take_bytes, take_number, take_string};

fn make_license() -> License {
    License::new()
        .with_id("6f1c".to_string())
        .unwrap()
        .with_feature("debug".to_string(), "parts1".to_string())
        .unwrap()
        .with_feature("emails".to_string(), "email1, email2".to_string())
        .unwrap()
        .with_feature("admin".to_string(), "fred, joe".to_string())
        .unwrap()
        .with_feature("remote connect".to_string(), "yes".to_string())
        .unwrap()
        .with_expiry("2024-02-28")
        .unwrap()
        .with_max_users(10)
        .unwrap()
        .with_keyphrase("new license being made".to_string())
        .unwrap()
        .build()
        .unwrap()
}

fn members(pairs: &[(&str, &str)]) -> Vec<(String, String)> {
    pairs.iter().map(|(k, v)| (k.to_string(), v.to_string())).collect()
}

#[test]
fn stored_form_is_exact() {
    let mut lic = License::new()
        .with_id("id-1".to_string())
        .unwrap()
        .with_feature("b".to_string(), "2".to_string())
        .unwrap()
        .with_feature("a".to_string(), "1".to_string())
        .unwrap()
        .with_expiry("2024-02-28")
        .unwrap()
        .with_max_users(10)
        .unwrap()
        .with_keyphrase("phrase".to_string())
        .unwrap();
    lic.signing_data.sig_bytes = vec![1, 255];
    lic.signing_data.pub_key = vec![0];
    let expected = "{\n  \"grantData\": {\n    \"id\": \"id-1\",\n    \"expires\": \"2024-02-28T00:00:00Z\",\n    \"features\": {\n      \"a\": \"1\",\n      \"b\": \"2\"\n    },\n    \"max_users\": 10,\n    \"key_phrase\": \"phrase\"\n  },\n  \"signingData\": {\n    \"signature_bytes\": [\n      1,\n      255\n    ],\n    \"public_key_bytes\": [\n      0\n    ]\n  }\n}";
    assert_eq!(lic.all_to_json(), expected);
}

#[test]
fn stored_form_of_a_blank_license() {
    let lic = License::new().with_id("x".to_string()).unwrap();
    let expected = "{\n  \"grantData\": {\n    \"id\": \"x\",\n    \"expires\": \"-262143-01-01T00:00:00Z\",\n    \"features\": {},\n    \"max_users\": 0,\n    \"key_phrase\": \"\"\n  },\n  \"signingData\": {\n    \"signature_bytes\": [],\n    \"public_key_bytes\": []\n  }\n}";
    assert_eq!(lic.all_to_json(), expected);
    assert_eq!(License::all_from_json(expected).unwrap(), lic);
}

#[test]
fn stored_form_is_json_that_serde_reads() {
    let lic = make_license();
    let value: serde_json::Value = serde_json::from_str(&lic.all_to_json()).unwrap();
    assert_eq!(value["grantData"]["id"], "6f1c");
    assert_eq!(value["grantData"]["expires"], "2024-02-28T00:00:00Z");
    assert_eq!(value["grantData"]["features"]["admin"], "fred, joe");
    assert_eq!(value["grantData"]["max_users"], 10);
    assert_eq!(value["grantData"]["key_phrase"], "new license being made");
    assert_eq!(value["signingData"]["signature_bytes"].as_array().unwrap().len(), 64);
    assert_eq!(value["signingData"]["public_key_bytes"].as_array().unwrap().len(), 32);
    assert_eq!(serde_json::to_string_pretty(&value).unwrap().len(), lic.all_to_json().len());
}

#[test]
fn round_trip_keeps_the_signing_form() {
    let lic = make_license();
    let loaded = License::all_from_json(&lic.all_to_json()).unwrap();
    assert_eq!(loaded, lic);
    assert_eq!(loaded.user_data_to_json(), lic.user_data_to_json());
    assert_eq!(loaded.verify(), Ok(()));
}

#[test]
fn stored_form_without_line_breaks_still_verifies() {
    let lic = make_license();
    let text = lic.all_to_json();
    let mut joined = String::new();
    for line in text.lines() {
        joined.push_str(line);
    }
    let loaded = License::all_from_json(&joined).unwrap();
    assert_eq!(loaded, lic);
    assert_eq!(loaded.verify().is_err(), false);

    let value: serde_json::Value = serde_json::from_str(&text).unwrap();
    let compact = serde_json::to_string(&value).unwrap();
    assert_eq!(License::all_from_json(&compact).unwrap(), lic);
}

#[test]
fn stored_form_edited_then_verify_fails() {
    let lic = make_license();
    let text = lic.all_to_json();
    let mut edited = String::new();
    for line in text.lines() {
        if !line.contains("admin") {
            edited.push_str(line);
        }
    }
    let loaded = License::all_from_json(&edited).unwrap();
    let res = loaded.verify();
    assert_eq!(res.is_err(), true);
    assert!(matches!(res.unwrap_err(), LicenseError::SigningProblem { .. }));
}

#[test]
fn stored_form_with_a_flipped_character_fails_to_verify() {
    let lic = make_license();
    let text = lic.all_to_json().replace("fred, joe", "fred, joF");
    let loaded = License::all_from_json(&text).unwrap();
    assert!(loaded.has_feature("admin"));
    assert!(matches!(loaded.verify(), Err(LicenseError::SigningProblem(_))));
    let key = lic.all_to_json().replace("\"debug\"", "\"debuh\"");
    let loaded = License::all_from_json(&key).unwrap();
    assert!(matches!(loaded.verify(), Err(LicenseError::SigningProblem(_))));
}

#[test]
fn unknown_members_are_passed_over() {
    let text = "{\"version\": 7, \"signingData\": {\"public_key_bytes\": [1], \"extra\": null, \"signature_bytes\": [2, 3]}, \"grantData\": {\"key_phrase\": \"k\", \"max_users\": 2, \"features\": {\"z\": \"1\", \"a\": \"2\"}, \"expires\": \"2030-05-06T07:08:09.5+01:00\", \"id\": \"i\", \"note\": [1, {\"a\": 2}]}}";
    let lic = License::all_from_json(text).unwrap();
    assert_eq!(lic.user_data.id, "i");
    assert_eq!(lic.user_data.key_phrase, "k");
    assert_eq!(lic.user_data.max_users, 2);
    assert_eq!(lic.user_data.expires, Timestamp::new(2030, 5, 6, 6, 8, 9, 500_000_000).unwrap());
    assert_eq!(lic.user_data.features.len(), 2);
    assert_eq!(lic.user_data.features.name_at(0), "a");
    assert_eq!(lic.user_data.features.value_at(1), "1");
    assert_eq!(lic.signing_data.sig_bytes, vec![2, 3]);
    assert_eq!(lic.signing_data.pub_key, vec![1]);
}

#[test]
fn escapes_survive_the_round_trip() {
    let odd = "q\"uote \\ back\nline\ttab \u{1} \u{1f} \u{7f} é 漢 😀".to_string();
    let lic = License::new()
        .with_id(odd.clone())
        .unwrap()
        .with_feature(odd.clone(), odd.clone())
        .unwrap()
        .with_keyphrase(odd.clone())
        .unwrap()
        .with_max_users(1)
        .unwrap()
        .build()
        .unwrap();
    let loaded = License::all_from_json(&lic.all_to_json()).unwrap();
    assert_eq!(loaded, lic);
    assert_eq!(loaded.verify(), Ok(()));
    assert!(loaded.has_feature(&odd));
}

#[test]
fn malformed_stored_forms_are_refused() {
    let bad = [
        "",
        "not json",
        "[]",
        "{}",
        "{\"grantData\": {}}",
        "{\"grantData\": 1, \"signingData\": 2}",
        "{\"signingData\": {\"signature_bytes\": [], \"public_key_bytes\": []}}",
        "{\"grantData\": {\"id\": \"i\", \"expires\": \"2030-05-06T07:08:09Z\", \"features\": {}, \"max_users\": 1, \"key_phrase\": \"k\"}, \"signingData\": {\"signature_bytes\": []}}",
        "{\"grantData\": {\"id\": \"i\", \"expires\": \"2030-05-06T07:08:09Z\", \"features\": {}, \"max_users\": 1, \"key_phrase\": \"k\"}, \"signingData\": {\"signature_bytes\": [256], \"public_key_bytes\": []}}",
        "{\"grantData\": {\"id\": 5, \"expires\": \"2030-05-06T07:08:09Z\", \"features\": {}, \"max_users\": 1, \"key_phrase\": \"k\"}, \"signingData\": {\"signature_bytes\": [], \"public_key_bytes\": []}}",
        "{\"grantData\": {\"id\": \"i\", \"expires\": \"tomorrow\", \"features\": {}, \"max_users\": 1, \"key_phrase\": \"k\"}, \"signingData\": {\"signature_bytes\": [], \"public_key_bytes\": []}}",
        "{\"grantData\": {\"id\": \"i\", \"expires\": \"2030-05-06T07:08:09Z\", \"features\": {\"a\": 1}, \"max_users\": 1, \"key_phrase\": \"k\"}, \"signingData\": {\"signature_bytes\": [], \"public_key_bytes\": []}}",
        "{\"grantData\": {\"id\": \"i\", \"expires\": \"2030-05-06T07:08:09Z\", \"features\": [], \"max_users\": 1, \"key_phrase\": \"k\"}, \"signingData\": {\"signature_bytes\": [], \"public_key_bytes\": []}}",
        "{\"grantData\": {\"id\": \"i\", \"expires\": \"2030-05-06T07:08:09Z\", \"features\": {}, \"max_users\": -1, \"key_phrase\": \"k\"}, \"signingData\": {\"signature_bytes\": [], \"public_key_bytes\": []}}",
        "{\"grantData\": {\"id\": \"i\", \"expires\": \"2030-05-06T07:08:09Z\", \"features\": {}, \"max_users\": 1.5, \"key_phrase\": \"k\"}, \"signingData\": {\"signature_bytes\": [], \"public_key_bytes\": []}}",
        "{\"grantData\": {\"id\": \"i\", \"expires\": \"2030-05-06T07:08:09Z\", \"features\": {}, \"max_users\": 1}, \"signingData\": {\"signature_bytes\": [], \"public_key_bytes\": []}}",
    ];
    for text in bad.iter() {
        assert!(
            matches!(License::all_from_json(text), Err(LicenseError::JSONIncorrect(_))),
            "accepted: {}",
            text
        );
    }
    let good = "{\"grantData\": {\"id\": \"i\", \"expires\": \"2030-05-06T07:08:09Z\", \"features\": {}, \"max_users\": 1, \"key_phrase\": \"k\"}, \"signingData\": {\"signature_bytes\": [], \"public_key_bytes\": []}}";
    assert!(License::all_from_json(good).is_ok());
}

#[test]
fn members_are_found_by_name() {
    let m = members(&[("a", "\"x\""), ("b", "12"), ("c", "[1,2]"), ("a", "\"second\"")]);
    assert_eq!(find_member(&m, "a"), Some(&"\"x\"".to_string()));
    assert_eq!(find_member(&m, "d"), None);
    assert_eq!(take_string(&m, "a"), Ok("x".to_string()));
    assert_eq!(take_number(&m, "b"), Ok(12));
    assert_eq!(take_bytes(&m, "c"), Ok(vec![1, 2]));
    assert!(matches!(take_string(&m, "b"), Err(LicenseError::JSONIncorrect(_))));
    assert!(matches!(take_number(&m, "a"), Err(LicenseError::JSONIncorrect(_))));
    assert!(matches!(take_bytes(&m, "d"), Err(LicenseError::JSONIncorrect(_))));
}

#[test]
fn features_are_made_of_members() {
    let m = members(&[("b", "\"2\""), ("a", "\"1\""), ("b", "\"3\"")]);
    let table = features_from_members(&m).unwrap();
    assert_eq!(table.len(), 2);
    assert_eq!(table.get("a"), Some(&"1".to_string()));
    assert_eq!(table.get("b"), Some(&"3".to_string()));
    let bad = members(&[("a", "\"1\""), ("b", "2")]);
    assert!(matches!(features_from_members(&bad), Err(LicenseError::JSONIncorrect(_))));
}

#[test]
fn a_missing_member_is_named() {
    assert_eq!(
        License::all_from_json("{}"),
        Err(LicenseError::JSONIncorrect("missing field `grantData`".to_string()))
    );
    assert_eq!(
        License::all_from_json("{\"grantData\": {}}"),
        Err(LicenseError::JSONIncorrect("missing field `signingData`".to_string()))
    );
    let m = members(&[("a", "1")]);
    assert_eq!(
        take_number(&m, "max_users"),
        Err(LicenseError::JSONIncorrect("missing field `max_users`".to_string()))
    );
}
