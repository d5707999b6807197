//! Building, signing and checking licenses.
//!
//! A license is filled in by a chain of `with_` calls, each of which refuses
//! bad input, and signed by `build`. `verify` holds the signature against the
//! grant terms as they are now; `check_license` also holds the expiry against
//! the clock.

use crate::canonical::{canonical_form, canonical_text};
use crate::data::{License, LicenseError, LicenseView, SigningData, SigningView, UserData, UserDataView};
use crate::features::{has_key, upsert, Features, Listing};
use crate::ident::{fresh_id, FRESH_ID_LENGTH};
use crate::instant::{
    current_instant, earliest, later, midnight, parse_date, parse_error_message, parsed_date,
    shift_seconds, shifted, valid_date, valid_instant, Instant, Timestamp,
};
use crate::schnorr::{
    public_key_decodes, public_key_is_well_formed, sign_with_fresh_key, signature_accepted,
    signature_decodes, signature_is_well_formed, signature_verifies, MAX_TRANSCRIPT_ITEM,
};
use vstd::prelude::*;
use vstd::string::StringSliceAdditionalSpecFns;
use vstd::utf8::encode_utf8;

verus! {

/// What holding a signature against grant terms can come to.
#[derive(Clone, Copy, Debug, PartialEq, Eq)]
pub enum SignatureCheck {
    /// The signature bytes are no signature.
    MalformedSignature,
    /// The public key bytes are no public key.
    MalformedKey,
    /// The key phrase or the signing form is longer than can be signed.
    TooLong,
    /// Signature and key are well formed, but the signature is not one for
    /// these grant terms under this key.
    Rejected,
    /// The signature is valid for these grant terms under this key.
    Accepted,
}

/// The bytes that are signed: the signing form of the grant terms in UTF-8.
pub open spec fn signing_message(g: UserDataView) -> Seq<u8> {
    encode_utf8(canonical_text(g))
}

/// The context of the signature: the key phrase in UTF-8.
pub open spec fn signing_context(g: UserDataView) -> Seq<u8> {
    encode_utf8(g.key_phrase)
}

/// Whether grant terms can be signed: neither the key phrase nor the signing
/// form is longer than a signing transcript takes.
pub open spec fn signable(g: UserDataView) -> bool {
    signing_context(g).len() <= MAX_TRANSCRIPT_ITEM && signing_message(g).len()
        <= MAX_TRANSCRIPT_ITEM
}

/// What holding the stored signature against the grant terms comes to: the
/// signature is read, then the key, then the signature is checked for the
/// signing form of the grant terms as they are, in the context of their key
/// phrase.
pub open spec fn signature_check(l: LicenseView) -> SignatureCheck {
    if !signature_decodes(l.signing_data.sig_bytes) {
        SignatureCheck::MalformedSignature
    } else if !public_key_decodes(l.signing_data.pub_key) {
        SignatureCheck::MalformedKey
    } else if !signable(l.user_data) {
        SignatureCheck::TooLong
    } else if signature_accepted(
        l.signing_data.pub_key,
        signing_context(l.user_data),
        signing_message(l.user_data),
        l.signing_data.sig_bytes,
    ) {
        SignatureCheck::Accepted
    } else {
        SignatureCheck::Rejected
    }
}

/// Whether the signature of a license is valid for its grant terms.
pub open spec fn verifies(l: LicenseView) -> bool {
    signature_check(l) is Accepted
}

/// Whether `after` is `before` with signing data that fit its grant terms.
pub open spec fn signed_from(before: LicenseView, after: LicenseView) -> bool {
    after.user_data == before.user_data && verifies(after)
}

/// The license with other features.
pub open spec fn with_features(l: LicenseView, features: Listing) -> LicenseView {
    LicenseView { user_data: UserDataView { features, ..l.user_data }, ..l }
}

/// The license with another expiry.
pub open spec fn with_expires(l: LicenseView, expires: Instant) -> LicenseView {
    LicenseView { user_data: UserDataView { expires, ..l.user_data }, ..l }
}

impl SignatureCheck {
    /// The check as a result: success for an accepted signature, the error of
    /// a tampered license for everything else.
    pub fn verdict(self) -> (r: Result<(), LicenseError>)
        ensures
            match r {
                Ok(_) => self is Accepted,
                Err(LicenseError::SigningProblem(m)) => !(self is Accepted) && m@
                    == "The license file has been tampered with and is invalid."@,
                Err(_) => false,
            },
    {
        match self {
            SignatureCheck::Accepted => Ok(()),
            _ => Err(
                LicenseError::SigningProblem(
                    "The license file has been tampered with and is invalid.".to_owned(),
                ),
            ),
        }
    }
}

/// Holds an expiry against a reading of the clock: a license is good while
/// its expiry is strictly after now.
pub fn expiry_verdict(expires: &Timestamp, now: &Timestamp) -> (r: Result<(), LicenseError>)
    ensures
        match r {
            Ok(_) => later(expires@, now@),
            Err(LicenseError::Expired(m)) => !later(expires@, now@) && m@
                == "License has expired and is out of date."@,
            Err(_) => false,
        },
{
    if expires.is_after(now) {
        Ok(())
    } else {
        Err(LicenseError::Expired("License has expired and is out of date.".to_owned()))
    }
}

impl SigningData {
    /// Signing data without a signature and without a key.
    pub fn new() -> (r: Self)
        ensures
            r@ == (SigningView { sig_bytes: Seq::empty(), pub_key: Seq::empty() }),
    {
        Self { sig_bytes: Vec::new(), pub_key: Vec::new() }
    }
}

impl Default for SigningData {
    fn default() -> (r: Self)
        ensures
            r@ == (SigningView { sig_bytes: Seq::empty(), pub_key: Seq::empty() }),
    {
        SigningData::new()
    }
}

/// Whether grant terms are as `UserData::new` leaves them: nothing set but a
/// fresh identifier.
pub open spec fn blank(g: UserDataView) -> bool {
    &&& g.id.len() == FRESH_ID_LENGTH
    &&& g.expires == earliest()
    &&& g.features == Listing::empty()
    &&& g.max_users == 0
    &&& g.key_phrase == Seq::<char>::empty()
}

impl UserData {
    /// Grant terms with a fresh random identifier and nothing else: no
    /// feature, no seat, no key phrase, and an expiry before every clock.
    pub fn new() -> (r: Self)
        ensures
            blank(r@),
    {
        Self {
            id: fresh_id(),
            expires: Timestamp::earliest(),
            features: Features::new(),
            max_users: 0,
            key_phrase: String::new(),
        }
    }
}

impl Default for UserData {
    fn default() -> (r: Self)
        ensures
            blank(r@),
    {
        UserData::new()
    }
}

impl Default for License {
    fn default() -> (r: Self)
        ensures
            blank(r@.user_data),
            r@.signing_data == (SigningView { sig_bytes: Seq::empty(), pub_key: Seq::empty() }),
    {
        License::new()
    }
}

impl License {
    /// An unsigned license with blank grant terms, to be filled in.
    pub fn new() -> (r: License)
        ensures
            blank(r@.user_data),
            r@.signing_data == (SigningView { sig_bytes: Seq::empty(), pub_key: Seq::empty() }),
    {
        License { user_data: UserData::new(), signing_data: SigningData::new() }
    }

    /// Sets the parameter of a feature, in a new entry or over the old one.
    /// An empty name and an empty parameter are refused.
    pub fn with_feature(self, key: String, val: String) -> (r: Result<License, LicenseError>)
        ensures
            match r {
                Ok(l) => key@.len() > 0 && val@.len() > 0 && l@ == with_features(
                    self@,
                    upsert(self@.user_data.features, key@, val@),
                ),
                Err(LicenseError::UserDataError(m)) => if key@.len() == 0 {
                    m@ == "Empty key supplied for feature"@
                } else {
                    val@.len() == 0 && m@ == "Empty value supplied for feature"@
                },
                Err(_) => false,
            },
    {
        if key.as_str().is_empty() {
            return Err(LicenseError::UserDataError("Empty key supplied for feature".to_owned()));
        }
        if val.as_str().is_empty() {
            return Err(
                LicenseError::UserDataError("Empty value supplied for feature".to_owned()),
            );
        }
        let License { user_data, signing_data } = self;
        let UserData { id, expires, features, max_users, key_phrase } = user_data;
        let features = features.with_entry(key, val);
        Ok(
            License {
                user_data: UserData { id, expires, features, max_users, key_phrase },
                signing_data,
            },
        )
    }

    /// Sets the expiry.
    pub fn with_expiry_at(self, expires: Timestamp) -> (r: License)
        ensures
            r@ == with_expires(self@, expires@),
    {
        let mut license = self;
        license.user_data.expires = expires;
        license
    }

    /// Sets the expiry to the start of a day in UTC. Numbers that name no day
    /// of the calendar are refused.
    pub fn with_expiry_date(self, year: i32, month: u32, day: u32) -> (r: Result<
        License,
        LicenseError,
    >)
        ensures
            match r {
                Ok(l) => valid_date(year as int, month as int, day as int) && l@ == with_expires(
                    self@,
                    midnight(year as int, month as int, day as int),
                ),
                Err(LicenseError::DateFormat(m)) => !valid_date(
                    year as int,
                    month as int,
                    day as int,
                ) && m@ == "input is out of range"@,
                Err(_) => false,
            },
    {
        match Timestamp::at_midnight(year, month, day) {
            Some(expires) => Ok(self.with_expiry_at(expires)),
            None => Err(LicenseError::DateFormat("input is out of range".to_owned())),
        }
    }

    /// Sets the expiry to the start, in UTC, of the day that `exp` names as
    /// year, month and day with hyphens between them. A text that is no such
    /// date is refused.
    pub fn with_expiry(self, exp: &str) -> (r: Result<License, LicenseError>)
        ensures
            match r {
                Ok(l) => parsed_date(exp@) matches Some(d) && valid_date(d.0, d.1, d.2) && l@
                    == with_expires(self@, midnight(d.0, d.1, d.2)),
                Err(LicenseError::DateFormat(_)) => parsed_date(exp@) is None,
                Err(_) => false,
            },
    {
        match parse_date(exp) {
            Ok((year, month, day)) => self.with_expiry_date(year, month, day),
            Err(e) => Err(LicenseError::DateFormat(parse_error_message(&e))),
        }
    }

    /// Sets the expiry to a number of seconds after `now`. A number that
    /// leads out of the calendar is refused.
    pub fn with_duration_from(self, now: &Timestamp, secs: i64) -> (r: Result<
        License,
        LicenseError,
    >)
        ensures
            match r {
                Ok(l) => shifted(now@, secs as int) matches Some(t) && valid_instant(t) && l@
                    == with_expires(self@, t),
                Err(LicenseError::UserDataError(m)) => shifted(now@, secs as int) is None && m@
                    == "Duration is out of range"@,
                Err(_) => false,
            },
    {
        match shift_seconds(now, secs) {
            Some(expires) => Ok(self.with_expiry_at(expires)),
            None => Err(LicenseError::UserDataError("Duration is out of range".to_owned())),
        }
    }

    /// Sets the expiry to a number of seconds after the present reading of the
    /// clock. A number that leads out of the calendar is refused.
    pub fn with_seconds_duration(self, secs: i64) -> (r: Result<License, LicenseError>)
        ensures
            match r {
                Ok(l) => l@ == with_expires(self@, l@.user_data.expires) && valid_instant(
                    l@.user_data.expires,
                ) && exists|now: Instant|
                    valid_instant(now) && #[trigger] shifted(now, secs as int) == Some(
                        l@.user_data.expires,
                    ),
                Err(LicenseError::UserDataError(m)) => m@ == "Duration is out of range"@ && exists|
                    now: Instant,
                |
                    valid_instant(now) && #[trigger] shifted(now, secs as int) is None,
                Err(_) => false,
            },
    {
        let now = current_instant();
        self.with_duration_from(&now, secs)
    }

    /// Sets the identifier. An empty one is refused.
    pub fn with_id(self, id: String) -> (r: Result<License, LicenseError>)
        ensures
            match r {
                Ok(l) => id@.len() > 0 && l@ == (LicenseView {
                    user_data: UserDataView { id: id@, ..self@.user_data },
                    ..self@
                }),
                Err(LicenseError::UserDataError(m)) => id@.len() == 0 && m@
                    == "Empty Id supplied"@,
                Err(_) => false,
            },
    {
        if id.as_str().is_empty() {
            return Err(LicenseError::UserDataError("Empty Id supplied".to_owned()));
        }
        let mut license = self;
        license.user_data.id = id;
        Ok(license)
    }

    /// Sets the number of seats. Zero is refused.
    pub fn with_max_users(self, max_users: usize) -> (r: Result<License, LicenseError>)
        ensures
            match r {
                Ok(l) => max_users > 0 && l@ == (LicenseView {
                    user_data: UserDataView { max_users: max_users as nat, ..self@.user_data },
                    ..self@
                }),
                Err(LicenseError::UserDataError(m)) => max_users == 0 && m@
                    == "Must have at least one user"@,
                Err(_) => false,
            },
    {
        if max_users == 0 {
            return Err(LicenseError::UserDataError("Must have at least one user".to_owned()));
        }
        let mut license = self;
        license.user_data.max_users = max_users;
        Ok(license)
    }

    /// Sets the key phrase. An empty one is refused.
    pub fn with_keyphrase(self, keyphrase: String) -> (r: Result<License, LicenseError>)
        ensures
            match r {
                Ok(l) => keyphrase@.len() > 0 && l@ == (LicenseView {
                    user_data: UserDataView { key_phrase: keyphrase@, ..self@.user_data },
                    ..self@
                }),
                Err(LicenseError::UserDataError(m)) => keyphrase@.len() == 0 && m@
                    == "Empty keyphrase supplied"@,
                Err(_) => false,
            },
    {
        if keyphrase.as_str().is_empty() {
            return Err(LicenseError::UserDataError("Empty keyphrase supplied".to_owned()));
        }
        let mut license = self;
        license.user_data.key_phrase = keyphrase;
        Ok(license)
    }

    /// Whether the license names the feature. The signature is not looked at.
    pub fn has_feature(&self, name: &str) -> (r: bool)
        ensures
            r == has_key(self@.user_data.features, name@),
    {
        self.user_data.features.contains(name)
    }

    /// The signing form of the grant terms.
    pub fn user_data_to_json(&self) -> (r: String)
        ensures
            r@ == canonical_text(self@.user_data),
    {
        canonical_form(&self.user_data)
    }

    /// Holds the stored signature against the grant terms as they are now.
    pub fn check_signature(&self) -> (r: SignatureCheck)
        ensures
            r == signature_check(self@),
    {
        if !signature_is_well_formed(self.signing_data.sig_bytes.as_slice()) {
            return SignatureCheck::MalformedSignature;
        }
        if !public_key_is_well_formed(self.signing_data.pub_key.as_slice()) {
            return SignatureCheck::MalformedKey;
        }
        let message: String = canonical_form(&self.user_data);
        let context: &[u8] = self.user_data.key_phrase.as_str().as_bytes();
        let signed: &[u8] = message.as_str().as_bytes();
        if context.len() > MAX_TRANSCRIPT_ITEM || signed.len() > MAX_TRANSCRIPT_ITEM {
            return SignatureCheck::TooLong;
        }
        if signature_verifies(
            self.signing_data.pub_key.as_slice(),
            context,
            signed,
            self.signing_data.sig_bytes.as_slice(),
        ) {
            SignatureCheck::Accepted
        } else {
            SignatureCheck::Rejected
        }
    }

    /// Succeeds if the signature is valid for the grant terms as they are
    /// now, and fails with `SigningProblem` if not: if signature or key are
    /// malformed, or if anything of the grant terms differs from what was
    /// signed.
    pub fn verify(&self) -> (r: Result<(), LicenseError>)
        ensures
            match r {
                Ok(_) => verifies(self@),
                Err(LicenseError::SigningProblem(m)) => !verifies(self@) && m@
                    == "The license file has been tampered with and is invalid."@,
                Err(_) => false,
            },
    {
        self.check_signature().verdict()
    }

    /// Verifies the license and holds its expiry against `now`: fails with
    /// `SigningProblem` if the signature does not fit, with `Expired` if it
    /// fits and the expiry is at or before `now`.
    pub fn check_license_at(&self, now: &Timestamp) -> (r: Result<(), LicenseError>)
        ensures
            match r {
                Ok(_) => verifies(self@) && later(self@.user_data.expires, now@),
                Err(LicenseError::SigningProblem(m)) => !verifies(self@) && m@
                    == "The license file has been tampered with and is invalid."@,
                Err(LicenseError::Expired(m)) => verifies(self@) && !later(
                    self@.user_data.expires,
                    now@,
                ) && m@ == "License has expired and is out of date."@,
                Err(_) => false,
            },
    {
        match self.verify() {
            Ok(_) => expiry_verdict(&self.user_data.expires, now),
            Err(e) => Err(e),
        }
    }

    /// Verifies the license and holds its expiry against the clock.
    pub fn check_license(&self) -> (r: Result<(), LicenseError>)
        ensures
            match r {
                Ok(_) => verifies(self@) && exists|now: Instant|
                    valid_instant(now) && #[trigger] later(self@.user_data.expires, now),
                Err(LicenseError::SigningProblem(m)) => !verifies(self@) && m@
                    == "The license file has been tampered with and is invalid."@,
                Err(LicenseError::Expired(m)) => verifies(self@) && m@
                    == "License has expired and is out of date."@ && exists|now: Instant|
                    valid_instant(now) && !#[trigger] later(self@.user_data.expires, now),
                Err(_) => false,
            },
    {
        let now = current_instant();
        self.check_license_at(&now)
    }

    /// Signs the grant terms with a key pair made for this license, and
    /// attaches the signature and the public key. Fails with `UserDataError`
    /// if the key phrase or the signing form is longer than can be signed.
    pub fn build(self) -> (r: Result<License, LicenseError>)
        ensures
            match r {
                Ok(l) => signable(self@.user_data) && signed_from(self@, l@),
                Err(LicenseError::UserDataError(m)) => !signable(self@.user_data) && m@
                    == "License is too long to sign"@,
                Err(_) => false,
            },
    {
        let message: String = canonical_form(&self.user_data);
        let context: &[u8] = self.user_data.key_phrase.as_str().as_bytes();
        let signed: &[u8] = message.as_str().as_bytes();
        if context.len() > MAX_TRANSCRIPT_ITEM || signed.len() > MAX_TRANSCRIPT_ITEM {
            return Err(LicenseError::UserDataError("License is too long to sign".to_owned()));
        }
        let (sig_bytes, pub_key) = sign_with_fresh_key(context, signed);
        let mut license = self;
        license.signing_data = SigningData { sig_bytes, pub_key };
        Ok(license)
    }
}

} // verus!
