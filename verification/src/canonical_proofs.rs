//! The signing form names the grant terms and no others: two grant terms
//! with the same signing form are equal in every field.

use crate::canonical::{canonical_text, entry_text, features_text};
use crate::data::UserDataView;
use crate::encoding::{decimal, quoted};
use crate::features::{lemma_same_bytes_same_name, Listing};
use crate::injectivity::{lemma_decimal_read, lemma_quoted_unique, lemma_split};
use crate::instant::{iso_text, valid_instant};
use crate::instant_text::lemma_iso_text_unique;
use crate::license::signing_message;
use vstd::prelude::*;

verus! {

/// A feature as a member of a JSON object can be read off the front of a
/// text in one way only.
pub proof fn lemma_entry_read(
    e: (Seq<char>, Seq<char>),
    r: Seq<char>,
    f: (Seq<char>, Seq<char>),
    s: Seq<char>,
)
    requires
        entry_text(e) + r == entry_text(f) + s,
    ensures
        e == f,
        r == s,
{
    let re = seq![':'] + (quoted(e.1) + r);
    let rf = seq![':'] + (quoted(f.1) + s);
    assert(entry_text(e) + r =~= quoted(e.0) + re);
    assert(entry_text(f) + s =~= quoted(f.0) + rf);
    lemma_quoted_unique(e.0, re, f.0, rf);
    lemma_split(seq![':'], quoted(e.1) + r, seq![':'], quoted(f.1) + s);
    lemma_quoted_unique(e.1, r, f.1, s);
}

/// The text of two features or more, taken from the front.
pub proof fn lemma_features_front(s: Listing)
    requires
        s.len() >= 2,
    ensures
        features_text(s) == entry_text(s[0]) + seq![','] + features_text(s.skip(1)),
    decreases s.len(),
{
    let front = s.drop_last();
    let back = s.skip(1);
    assert(back.last() == s.last());
    assert(front[0] == s[0]);
    if s.len() == 2 {
        assert(back[0] == s[1]);
        assert(features_text(s) =~= entry_text(s[0]) + seq![','] + features_text(back));
    } else {
        lemma_features_front(front);
        assert(front.skip(1) =~= back.drop_last());
        assert(features_text(s) == features_text(front) + seq![','] + entry_text(s.last()));
        assert(features_text(back) == features_text(back.drop_last()) + seq![','] + entry_text(
            back.last(),
        ));
        assert(features_text(s) =~= entry_text(s[0]) + seq![','] + features_text(back));
    }
}

/// The text of features, where there are any, begins with a quote.
pub proof fn lemma_features_begin(s: Listing)
    requires
        s.len() >= 1,
    ensures
        features_text(s).len() > 0,
        features_text(s)[0] == '"',
{
    if s.len() >= 2 {
        lemma_features_front(s);
    }
    assert(entry_text(s[0])[0] == '"');
}

/// What follows the first feature of an object that is closed by a brace.
pub open spec fn after_first(a: Listing, r: Seq<char>) -> Seq<char> {
    if a.len() <= 1 {
        seq!['}'] + r
    } else {
        seq![','] + (features_text(a.skip(1)) + seq!['}'] + r)
    }
}

/// The features of an object that has some, closed by a brace: the first
/// feature and what follows it.
pub proof fn lemma_first_feature(a: Listing, r: Seq<char>)
    requires
        a.len() >= 1,
    ensures
        features_text(a) + seq!['}'] + r == entry_text(a[0]) + after_first(a, r),
{
    if a.len() >= 2 {
        lemma_features_front(a);
    }
    assert(features_text(a) + seq!['}'] + r =~= entry_text(a[0]) + after_first(a, r));
}

/// An object without features, closed by a brace, is not the beginning of
/// one with features.
pub proof fn lemma_no_features(r: Seq<char>, b: Listing, s: Seq<char>)
    requires
        features_text(Listing::empty()) + seq!['}'] + r == features_text(b) + seq!['}'] + s,
    ensures
        b == Listing::empty(),
        r == s,
{
    let left = features_text(Listing::empty()) + seq!['}'] + r;
    let right = features_text(b) + seq!['}'] + s;
    assert(left[0] == '}');
    if b.len() > 0 {
        lemma_features_begin(b);
        assert(right[0] == '"');
    }
    assert(b =~= Listing::empty());
    assert(r =~= left.skip(1));
    assert(s =~= right.skip(1));
}

/// The features of an object, closed by a brace, can be read off the front
/// of a text in one way only.
pub proof fn lemma_features_read(a: Listing, r: Seq<char>, b: Listing, s: Seq<char>)
    requires
        features_text(a) + seq!['}'] + r == features_text(b) + seq!['}'] + s,
    ensures
        a == b,
        r == s,
    decreases a.len(),
{
    if a.len() == 0 {
        assert(a =~= Listing::empty());
        lemma_no_features(r, b, s);
    } else if b.len() == 0 {
        assert(b =~= Listing::empty());
        lemma_no_features(s, a, r);
    } else {
        lemma_first_feature(a, r);
        lemma_first_feature(b, s);
        let ra = after_first(a, r);
        let rb = after_first(b, s);
        lemma_entry_read(a[0], ra, b[0], rb);
        assert(ra[0] == rb[0]);
        if a.len() == 1 {
            assert(b.len() == 1);
            lemma_split(seq!['}'], r, seq!['}'], s);
            assert(a =~= b);
        } else {
            assert(b.len() >= 2);
            lemma_split(
                seq![','],
                features_text(a.skip(1)) + seq!['}'] + r,
                seq![','],
                features_text(b.skip(1)) + seq!['}'] + s,
            );
            lemma_features_read(a.skip(1), r, b.skip(1), s);
            assert(a =~= seq![a[0]] + a.skip(1));
            assert(b =~= seq![b[0]] + b.skip(1));
        }
    }
}

/// The signing form from the key phrase on.
pub open spec fn tail_phrase(g: UserDataView) -> Seq<char> {
    quoted(g.key_phrase) + "}"@
}

/// The signing form from the seat count on.
pub open spec fn tail_seats(g: UserDataView) -> Seq<char> {
    decimal(g.max_users) + (",\"key_phrase\":"@ + tail_phrase(g))
}

/// The signing form from the features on.
pub open spec fn tail_features(g: UserDataView) -> Seq<char> {
    features_text(g.features) + seq!['}'] + (",\"max_users\":"@ + tail_seats(g))
}

/// The signing form from the expiry on.
pub open spec fn tail_expires(g: UserDataView) -> Seq<char> {
    quoted(iso_text(g.expires)) + (",\"features\":{"@ + tail_features(g))
}

/// The signing form from the identifier on.
pub open spec fn tail_id(g: UserDataView) -> Seq<char> {
    quoted(g.id) + (",\"expires\":"@ + tail_expires(g))
}

/// The signing form is its opening and then its fields, one after the other.
pub proof fn lemma_canonical_parts(g: UserDataView)
    ensures
        canonical_text(g) == "{\"id\":"@ + tail_id(g),
{
    reveal_strlit("},\"max_users\":");
    reveal_strlit(",\"max_users\":");
    assert("},\"max_users\":"@ =~= seq!['}'] + ",\"max_users\":"@);
    assert(canonical_text(g) =~= "{\"id\":"@ + tail_id(g));
}

/// Two grant terms with the same signing form from the seat count on have
/// the same seat count and the same key phrase.
pub proof fn lemma_seats_and_phrase(a: UserDataView, b: UserDataView)
    requires
        tail_seats(a) == tail_seats(b),
    ensures
        a.max_users == b.max_users,
        a.key_phrase == b.key_phrase,
{
    reveal_strlit(",\"key_phrase\":");
    let lead = ",\"key_phrase\":"@;
    assert(lead[0] == ',');
    assert((lead + tail_phrase(a))[0] == ',');
    assert((lead + tail_phrase(b))[0] == ',');
    lemma_decimal_read(
        a.max_users,
        lead + tail_phrase(a),
        b.max_users,
        lead + tail_phrase(b),
    );
    lemma_split(lead, tail_phrase(a), lead, tail_phrase(b));
    lemma_quoted_unique(a.key_phrase, "}"@, b.key_phrase, "}"@);
}

/// Two grant terms with the same signing form are the same grant terms: the
/// same identifier, expiry, features, seat count and key phrase.
pub proof fn lemma_canonical_text_unique(a: UserDataView, b: UserDataView)
    requires
        valid_instant(a.expires),
        valid_instant(b.expires),
        canonical_text(a) == canonical_text(b),
    ensures
        a == b,
{
    lemma_canonical_parts(a);
    lemma_canonical_parts(b);
    lemma_split("{\"id\":"@, tail_id(a), "{\"id\":"@, tail_id(b));
    let ea = ",\"expires\":"@ + tail_expires(a);
    let eb = ",\"expires\":"@ + tail_expires(b);
    lemma_quoted_unique(a.id, ea, b.id, eb);
    lemma_split(",\"expires\":"@, tail_expires(a), ",\"expires\":"@, tail_expires(b));
    let fa = ",\"features\":{"@ + tail_features(a);
    let fb = ",\"features\":{"@ + tail_features(b);
    lemma_quoted_unique(iso_text(a.expires), fa, iso_text(b.expires), fb);
    lemma_iso_text_unique(a.expires, b.expires);
    lemma_split(",\"features\":{"@, tail_features(a), ",\"features\":{"@, tail_features(b));
    let sa = ",\"max_users\":"@ + tail_seats(a);
    let sb = ",\"max_users\":"@ + tail_seats(b);
    lemma_features_read(a.features, sa, b.features, sb);
    lemma_split(",\"max_users\":"@, tail_seats(a), ",\"max_users\":"@, tail_seats(b));
    lemma_seats_and_phrase(a, b);
}

/// Two grant terms with the same signed bytes are the same grant terms. So
/// whatever is changed in a license after it was signed, be it one character
/// of one feature, the bytes that its signature is held against are no
/// longer the bytes that were signed.
pub proof fn lemma_signing_message_unique(a: UserDataView, b: UserDataView)
    requires
        valid_instant(a.expires),
        valid_instant(b.expires),
        signing_message(a) == signing_message(b),
    ensures
        a == b,
{
    lemma_same_bytes_same_name(canonical_text(a), canonical_text(b));
    lemma_canonical_text_unique(a, b);
}

} // verus!
