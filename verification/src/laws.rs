//! What holds of the library as a whole, stated over the values of its
//! types and proved from the definitions that its contracts use.

use crate::canonical_proofs::lemma_signing_message_unique;
use crate::data::{LicenseView, SigningView, UserDataView};
use crate::features::{as_map, has_key, lemma_upsert, sorted, upsert, value_of, Listing};
use crate::instant::{later, valid_instant, Instant};
use crate::license::{
    signable, signing_context, signing_message, verifies, with_features,
};
use crate::schnorr::{public_key_decodes, signature_accepted, signature_decodes};
use vstd::prelude::*;

verus! {

/// A license that was just signed verifies: grant terms that can be signed,
/// together with a signature and a key that decode and of which the
/// signature is accepted for the signed bytes of those terms in the context
/// of their key phrase, make a license whose signature check is `Accepted`.
pub proof fn lemma_fresh_signature_verifies(g: UserDataView, sig: Seq<u8>, key: Seq<u8>)
    requires
        signable(g),
        signature_decodes(sig),
        public_key_decodes(key),
        signature_accepted(key, signing_context(g), signing_message(g), sig),
    ensures
        verifies(
            LicenseView { user_data: g, signing_data: SigningView { sig_bytes: sig, pub_key: key } },
        ),
{
}

/// Tampering changes what the signature is held against: if the grant terms
/// of a license differ in anything from the terms that were signed, the
/// bytes that are checked are not the bytes that were signed.
pub proof fn lemma_tampering_changes_signed_bytes(signed: UserDataView, tampered: UserDataView)
    requires
        valid_instant(signed.expires),
        valid_instant(tampered.expires),
        signed != tampered,
    ensures
        signing_message(signed) != signing_message(tampered),
{
    if signing_message(signed) == signing_message(tampered) {
        lemma_signing_message_unique(signed, tampered);
    }
}

/// Expiry is strict: no instant is after itself, of two instants at most
/// one is after the other and, unless they are equal, exactly one; and what
/// is after a later instant is after an earlier one.
pub proof fn lemma_later_is_a_strict_order(a: Instant, b: Instant, c: Instant)
    ensures
        !later(a, a),
        later(a, b) ==> !later(b, a),
        a != b ==> later(a, b) || later(b, a),
        later(a, b) && later(b, c) ==> later(a, c),
{
}

/// A license has a feature if and only if the feature was set: after
/// `with_feature(key, value)` the license has `key`, with `value` as its
/// parameter whatever it was before, and has every other name exactly if it
/// had it before, with the parameter it had.
pub proof fn lemma_features_after_with_feature(
    l: LicenseView,
    key: Seq<char>,
    value: Seq<char>,
    name: Seq<char>,
)
    requires
        sorted(l.user_data.features),
    ensures
        ({
            let after = with_features(l, upsert(l.user_data.features, key, value)).user_data.features;
            &&& sorted(after)
            &&& has_key(after, name) == (name == key || has_key(l.user_data.features, name))
            &&& value_of(after, key) == value
            &&& (name != key && has_key(l.user_data.features, name) ==> value_of(after, name)
                == value_of(l.user_data.features, name))
        }),
{
    let before = l.user_data.features;
    let after = upsert(before, key, value);
    lemma_upsert(before, key, value);
    assert(as_map(after).dom().contains(name) == has_key(after, name));
    assert(as_map(before).insert(key, value).dom().contains(name) == (name == key || has_key(
        before,
        name,
    )));
    assert(as_map(after)[key] == value);
    if name != key && has_key(before, name) {
        assert(as_map(after)[name] == as_map(before)[name]);
    }
}

/// A new license has no feature.
pub proof fn lemma_no_feature_at_first(name: Seq<char>)
    ensures
        !has_key(Listing::empty(), name),
{
}

} // verus!
