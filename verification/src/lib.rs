//! Tamper-evident software licenses.
//!
//! A license couples grant terms (identifier, expiry, features, seat count,
//! key phrase) with a Schnorr signature over their signing form and the
//! public key that verifies it. Any change to the terms changes the signing
//! form, so the signature no longer fits.
//!
//! `data` holds the types, `license` the operations on them, `canonical` the
//! signing form, `document` and `loading` the stored form. `instant` and
//! `features` are the two field types with rules of their own. `schnorr`,
//! `json` and `ident` hold the calls into other crates. The remaining modules
//! hold proofs.

pub mod canonical;
pub mod canonical_proofs;
pub mod data;
pub mod document;
pub mod encoding;
pub mod features;
pub mod ident;
pub mod injectivity;
pub mod instant;
pub mod instant_text;
pub mod json;
pub mod laws;
pub mod license;
pub mod loading;
pub mod schnorr;
