//! Reading the stored form of a license back.
//!
//! `serde_json` reads the text, one layer at a time; what is done with the
//! layers is decided here: which members a license must have, that unknown
//! members are passed over, and that every failure is a `JSONIncorrect`.

use crate::data::{License, LicenseError, LicenseView, SigningData, SigningView, UserData, UserDataView};
use crate::features::{key_order, listing_of, upsert, Features, KeyOrder, Listing};
use crate::instant::{parse_error_message, parse_instant, parsed_instant, Instant, Timestamp};
use crate::json::{
    json_bytes, json_error_message, json_members, json_number, json_string, read_bytes,
    read_members, read_number, read_string,
};
use vstd::prelude::*;

verus! {

/// The text of the first member called `name`, if there is one.
pub open spec fn member(members: Listing, name: Seq<char>) -> Option<Seq<char>>
    decreases members.len(),
{
    if members.len() == 0 {
        None
    } else if members[0].0 == name {
        Some(members[0].1)
    } else {
        member(members.skip(1), name)
    }
}

/// The member called `name` read as a string.
pub open spec fn string_field(members: Listing, name: Seq<char>) -> Option<Seq<char>> {
    match member(members, name) {
        Some(text) => json_string(text),
        None => None,
    }
}

/// The member called `name` read as a number.
pub open spec fn number_field(members: Listing, name: Seq<char>) -> Option<u64> {
    match member(members, name) {
        Some(text) => json_number(text),
        None => None,
    }
}

/// The member called `name` read as a list of bytes.
pub open spec fn bytes_field(members: Listing, name: Seq<char>) -> Option<Seq<u8>> {
    match member(members, name) {
        Some(text) => json_bytes(text),
        None => None,
    }
}

/// The member called `name` read as a string that holds a date and time.
pub open spec fn instant_field(members: Listing, name: Seq<char>) -> Option<Instant> {
    match string_field(members, name) {
        Some(text) => parsed_instant(text),
        None => None,
    }
}

/// The feature table that the members of a JSON object make: each member's
/// value read as a string and set under the member's name, in order. Nothing
/// where a value is no string.
pub open spec fn decoded_features(members: Listing) -> Option<Listing>
    decreases members.len(),
{
    if members.len() == 0 {
        Some(Listing::empty())
    } else {
        match decoded_features(members.drop_last()) {
            Some(table) => match json_string(members.last().1) {
                Some(value) => Some(upsert(table, members.last().0, value)),
                None => None,
            },
            None => None,
        }
    }
}

/// The member called `name` read as a feature table.
pub open spec fn features_field(members: Listing, name: Seq<char>) -> Option<Listing> {
    match member(members, name) {
        Some(text) => match json_members(text) {
            Some(entries) => decoded_features(entries),
            None => None,
        },
        None => None,
    }
}

/// The grant terms that a JSON text holds: an object with the members `id`,
/// `expires`, `features`, `max_users` and `key_phrase`, each of its kind.
pub open spec fn decoded_grant(text: Seq<char>) -> Option<UserDataView> {
    match json_members(text) {
        Some(m) => {
            if string_field(m, "id"@) is Some && instant_field(m, "expires"@) is Some
                && features_field(m, "features"@) is Some && number_field(m, "max_users"@) is Some
                && number_field(m, "max_users"@)->0 <= usize::MAX && string_field(
                m,
                "key_phrase"@,
            ) is Some {
                Some(
                    UserDataView {
                        id: string_field(m, "id"@)->0,
                        expires: instant_field(m, "expires"@)->0,
                        features: features_field(m, "features"@)->0,
                        max_users: number_field(m, "max_users"@)->0 as nat,
                        key_phrase: string_field(m, "key_phrase"@)->0,
                    },
                )
            } else {
                None
            }
        },
        None => None,
    }
}

/// The signing data that a JSON text holds: an object with the members
/// `signature_bytes` and `public_key_bytes`, both lists of bytes.
pub open spec fn decoded_signing(text: Seq<char>) -> Option<SigningView> {
    match json_members(text) {
        Some(m) => {
            if bytes_field(m, "signature_bytes"@) is Some && bytes_field(m, "public_key_bytes"@)
                is Some {
                Some(
                    SigningView {
                        sig_bytes: bytes_field(m, "signature_bytes"@)->0,
                        pub_key: bytes_field(m, "public_key_bytes"@)->0,
                    },
                )
            } else {
                None
            }
        },
        None => None,
    }
}

/// The license that a JSON text holds: an object with the members
/// `grantData` and `signingData`. Other members are passed over.
pub open spec fn decoded_license(text: Seq<char>) -> Option<LicenseView> {
    match json_members(text) {
        Some(m) => match (member(m, "grantData"@), member(m, "signingData"@)) {
            (Some(grant), Some(signing)) => match (decoded_grant(grant), decoded_signing(signing)) {
                (Some(user_data), Some(signing_data)) => Some(
                    LicenseView { user_data, signing_data },
                ),
                _ => None,
            },
            _ => None,
        },
        None => None,
    }
}

/// A table that cannot be read up to some member cannot be read at all.
pub proof fn lemma_unreadable_prefix(members: Listing, k: int)
    requires
        0 <= k <= members.len(),
        decoded_features(members.take(k)) is None,
    ensures
        decoded_features(members) is None,
    decreases members.len(),
{
    if k == members.len() {
        assert(members.take(k) =~= members);
    } else {
        assert(members.drop_last().take(k) =~= members.take(k));
        lemma_unreadable_prefix(members.drop_last(), k);
    }
}

/// The error of a stored license that lacks a member.
fn missing(name: &str) -> (r: LicenseError)
    ensures
        r matches LicenseError::JSONIncorrect(m) && m@ == "missing field `"@ + name@ + "`"@,
{
    let mut message = "missing field `".to_owned();
    message.append(name);
    message.append("`");
    LicenseError::JSONIncorrect(message)
}

/// The text of the first member called `name`.
pub fn find_member<'a>(members: &'a Vec<(String, String)>, name: &str) -> (r: Option<&'a String>)
    ensures
        match r {
            Some(text) => member(listing_of(members@), name@) == Some(text@),
            None => member(listing_of(members@), name@) is None,
        },
{
    let ghost all = listing_of(members@);
    let mut i: usize = 0;
    assert(all.skip(0) =~= all);
    while i < members.len()
        invariant
            i <= members.len(),
            all == listing_of(members@),
            member(all, name@) == member(all.skip(i as int), name@),
        decreases members.len() - i,
    {
        assert(all.skip(i as int)[0] == all[i as int]);
        assert(all.skip(i as int).skip(1) =~= all.skip(i + 1));
        match key_order(members[i].0.as_str(), name) {
            KeyOrder::Same => {
                return Some(&members[i].1);
            },
            _ => {},
        }
        i += 1;
    }
    None
}

/// Reads the member called `name` as a string.
pub fn take_string(members: &Vec<(String, String)>, name: &str) -> (r: Result<
    String,
    LicenseError,
>)
    ensures
        match r {
            Ok(s) => string_field(listing_of(members@), name@) == Some(s@),
            Err(e) => string_field(listing_of(members@), name@) is None && e is JSONIncorrect,
        },
{
    match find_member(members, name) {
        Some(text) => match read_string(text.as_str()) {
            Ok(s) => Ok(s),
            Err(e) => Err(LicenseError::JSONIncorrect(json_error_message(&e))),
        },
        None => Err(missing(name)),
    }
}

/// Reads the member called `name` as a number.
pub fn take_number(members: &Vec<(String, String)>, name: &str) -> (r: Result<u64, LicenseError>)
    ensures
        match r {
            Ok(n) => number_field(listing_of(members@), name@) == Some(n),
            Err(e) => number_field(listing_of(members@), name@) is None && e is JSONIncorrect,
        },
{
    match find_member(members, name) {
        Some(text) => match read_number(text.as_str()) {
            Ok(n) => Ok(n),
            Err(e) => Err(LicenseError::JSONIncorrect(json_error_message(&e))),
        },
        None => Err(missing(name)),
    }
}

/// Reads the member called `name` as a list of bytes.
pub fn take_bytes(members: &Vec<(String, String)>, name: &str) -> (r: Result<
    Vec<u8>,
    LicenseError,
>)
    ensures
        match r {
            Ok(b) => bytes_field(listing_of(members@), name@) == Some(b@),
            Err(e) => bytes_field(listing_of(members@), name@) is None && e is JSONIncorrect,
        },
{
    match find_member(members, name) {
        Some(text) => match read_bytes(text.as_str()) {
            Ok(b) => Ok(b),
            Err(e) => Err(LicenseError::JSONIncorrect(json_error_message(&e))),
        },
        None => Err(missing(name)),
    }
}

/// Reads the member called `name` as a string that holds a date and time.
pub fn take_instant(members: &Vec<(String, String)>, name: &str) -> (r: Result<
    Timestamp,
    LicenseError,
>)
    ensures
        match r {
            Ok(t) => instant_field(listing_of(members@), name@) == Some(t@),
            Err(e) => instant_field(listing_of(members@), name@) is None && e is JSONIncorrect,
        },
{
    match take_string(members, name) {
        Ok(text) => match parse_instant(text.as_str()) {
            Ok(t) => Ok(t),
            Err(e) => Err(LicenseError::JSONIncorrect(parse_error_message(&e))),
        },
        Err(e) => Err(e),
    }
}

/// Makes a feature table of the members of a JSON object.
pub fn features_from_members(members: &Vec<(String, String)>) -> (r: Result<
    Features,
    LicenseError,
>)
    ensures
        match r {
            Ok(f) => decoded_features(listing_of(members@)) == Some(f@),
            Err(e) => decoded_features(listing_of(members@)) is None && e is JSONIncorrect,
        },
{
    let ghost all = listing_of(members@);
    let mut table = Features::new();
    let mut i: usize = 0;
    assert(all.take(0) =~= Listing::empty());
    while i < members.len()
        invariant
            i <= members.len(),
            all == listing_of(members@),
            decoded_features(all.take(i as int)) == Some(table@),
        decreases members.len() - i,
    {
        proof {
            let next = all.take(i + 1);
            assert(next.drop_last() =~= all.take(i as int));
            assert(next.last() == all[i as int]);
        }
        match read_string(members[i].1.as_str()) {
            Ok(value) => {
                table = table.with_entry(members[i].0.clone(), value);
            },
            Err(e) => {
                proof {
                    lemma_unreadable_prefix(all, i + 1);
                }
                return Err(LicenseError::JSONIncorrect(json_error_message(&e)));
            },
        }
        i += 1;
    }
    assert(all.take(members.len() as int) =~= all);
    Ok(table)
}

/// Reads the member called `name` as a feature table.
pub fn take_features(members: &Vec<(String, String)>, name: &str) -> (r: Result<
    Features,
    LicenseError,
>)
    ensures
        match r {
            Ok(f) => features_field(listing_of(members@), name@) == Some(f@),
            Err(e) => features_field(listing_of(members@), name@) is None && e is JSONIncorrect,
        },
{
    match find_member(members, name) {
        Some(text) => match read_members(text.as_str()) {
            Ok(entries) => features_from_members(&entries),
            Err(e) => Err(LicenseError::JSONIncorrect(json_error_message(&e))),
        },
        None => Err(missing(name)),
    }
}

/// Reads grant terms from JSON text.
pub fn grant_from_json(text: &str) -> (r: Result<UserData, LicenseError>)
    ensures
        match r {
            Ok(g) => decoded_grant(text@) == Some(g@),
            Err(e) => decoded_grant(text@) is None && e is JSONIncorrect,
        },
{
    let members = match read_members(text) {
        Ok(m) => m,
        Err(e) => {
            return Err(LicenseError::JSONIncorrect(json_error_message(&e)));
        },
    };
    let id = match take_string(&members, "id") {
        Ok(v) => v,
        Err(e) => {
            return Err(e);
        },
    };
    let expires = match take_instant(&members, "expires") {
        Ok(v) => v,
        Err(e) => {
            return Err(e);
        },
    };
    let features = match take_features(&members, "features") {
        Ok(v) => v,
        Err(e) => {
            return Err(e);
        },
    };
    let seats = match take_number(&members, "max_users") {
        Ok(v) => v,
        Err(e) => {
            return Err(e);
        },
    };
    if seats > usize::MAX as u64 {
        return Err(LicenseError::JSONIncorrect("max_users is out of range".to_owned()));
    }
    let key_phrase = match take_string(&members, "key_phrase") {
        Ok(v) => v,
        Err(e) => {
            return Err(e);
        },
    };
    Ok(UserData { id, expires, features, max_users: seats as usize, key_phrase })
}

/// Reads signing data from JSON text.
pub fn signing_from_json(text: &str) -> (r: Result<SigningData, LicenseError>)
    ensures
        match r {
            Ok(s) => decoded_signing(text@) == Some(s@),
            Err(e) => decoded_signing(text@) is None && e is JSONIncorrect,
        },
{
    let members = match read_members(text) {
        Ok(m) => m,
        Err(e) => {
            return Err(LicenseError::JSONIncorrect(json_error_message(&e)));
        },
    };
    let sig_bytes = match take_bytes(&members, "signature_bytes") {
        Ok(v) => v,
        Err(e) => {
            return Err(e);
        },
    };
    let pub_key = match take_bytes(&members, "public_key_bytes") {
        Ok(v) => v,
        Err(e) => {
            return Err(e);
        },
    };
    Ok(SigningData { sig_bytes, pub_key })
}

impl License {
    /// Reads a license from its stored form. Layout does not matter, and
    /// members that a license does not have are passed over. A text that is
    /// no JSON object, or lacks a member, or has one of the wrong kind, is
    /// refused with `JSONIncorrect`.
    pub fn all_from_json(json: &str) -> (r: Result<License, LicenseError>)
        ensures
            match r {
                Ok(l) => decoded_license(json@) == Some(l@),
                Err(LicenseError::JSONIncorrect(_)) => decoded_license(json@) is None,
                Err(_) => false,
            },
    {
        let members = match read_members(json) {
            Ok(m) => m,
            Err(e) => {
                return Err(LicenseError::JSONIncorrect(json_error_message(&e)));
            },
        };
        let grant = match find_member(&members, "grantData") {
            Some(text) => text,
            None => {
                return Err(missing("grantData"));
            },
        };
        let signing = match find_member(&members, "signingData") {
            Some(text) => text,
            None => {
                return Err(missing("signingData"));
            },
        };
        let user_data = match grant_from_json(grant.as_str()) {
            Ok(v) => v,
            Err(e) => {
                return Err(e);
            },
        };
        let signing_data = match signing_from_json(signing.as_str()) {
            Ok(v) => v,
            Err(e) => {
                return Err(e);
            },
        };
        Ok(License { user_data, signing_data })
    }
}

} // verus!
