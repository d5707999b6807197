//! The license data model: the grant terms that are signed, the signing data
//! that binds them to a key, and the errors of the library.

use crate::features::{Features, Listing};
use crate::instant::{Instant, Timestamp};
use vstd::prelude::*;

verus! {

/// The signature over the grant terms and the public key that verifies it.
/// Made when a license is built, never supplied by a user.
#[derive(Debug, PartialEq, Eq)]
pub struct SigningData {
    pub sig_bytes: Vec<u8>,
    pub pub_key: Vec<u8>,
}

/// The grant terms: what a license allows, for whom and until when. These
/// are what the signature covers.
#[derive(Debug, PartialEq, Eq)]
pub struct UserData {
    /// An identifier, random unless set.
    pub id: String,
    /// The license is invalid at and after this instant.
    pub expires: Timestamp,
    /// Feature names with a parameter each.
    pub features: Features,
    /// The number of seats; a license that is issued has at least one.
    pub max_users: usize,
    /// The context of the signature: a signature made under one key phrase is
    /// not valid under another.
    pub key_phrase: String,
}

/// Grant terms together with their signing data.
#[derive(Debug, PartialEq, Eq)]
pub struct License {
    pub user_data: UserData,
    pub signing_data: SigningData,
}

/// Why an operation on a license failed.
#[derive(Debug, Clone, PartialEq, Eq)]
pub enum LicenseError {
    /// An expiry date could not be read.
    DateFormat(String),
    /// A stored license could not be read.
    JSONIncorrect(String),
    /// A file could not be read or written.
    FileError(String),
    /// The signature does not fit the grant terms.
    SigningProblem(String),
    /// A grant term was refused.
    UserDataError(String),
    /// The signature fits, but the license is past its expiry.
    Expired(String),
}

/// The mathematical value of `SigningData`.
pub struct SigningView {
    pub sig_bytes: Seq<u8>,
    pub pub_key: Seq<u8>,
}

/// The mathematical value of `UserData`.
pub struct UserDataView {
    pub id: Seq<char>,
    pub expires: Instant,
    pub features: Listing,
    pub max_users: nat,
    pub key_phrase: Seq<char>,
}

/// The mathematical value of a `License`.
pub struct LicenseView {
    pub user_data: UserDataView,
    pub signing_data: SigningView,
}

impl View for SigningData {
    type V = SigningView;

    open spec fn view(&self) -> SigningView {
        SigningView { sig_bytes: self.sig_bytes@, pub_key: self.pub_key@ }
    }
}

impl View for UserData {
    type V = UserDataView;

    open spec fn view(&self) -> UserDataView {
        UserDataView {
            id: self.id@,
            expires: self.expires@,
            features: self.features@,
            max_users: self.max_users as nat,
            key_phrase: self.key_phrase@,
        }
    }
}

impl View for License {
    type V = LicenseView;

    open spec fn view(&self) -> LicenseView {
        LicenseView { user_data: self.user_data@, signing_data: self.signing_data@ }
    }
}

} // verus!
