//! The signing form of the grant terms: the one text that is signed and
//! checked.
//!
//! It is a single line of JSON with the fields in a fixed order, the features
//! in listing order, the expiry as ISO-8601 text and the seat count as a
//! decimal numeral. Equal grant terms give equal text, and different grant
//! terms give different text.

use crate::data::{UserData, UserDataView};
use crate::encoding::{decimal, push_char, quoted, write_decimal, write_quoted};
use crate::features::{Features, Listing};
use crate::instant::iso_text;
use vstd::prelude::*;

verus! {

/// One feature as a member of a JSON object: the quoted name, a colon, the
/// quoted parameter.
pub open spec fn entry_text(entry: (Seq<char>, Seq<char>)) -> Seq<char> {
    quoted(entry.0) + seq![':'] + quoted(entry.1)
}

/// The features as the members of a JSON object, with commas between them.
pub open spec fn features_text(s: Listing) -> Seq<char>
    decreases s.len(),
{
    if s.len() == 0 {
        Seq::empty()
    } else if s.len() == 1 {
        entry_text(s[0])
    } else {
        features_text(s.drop_last()) + seq![','] + entry_text(s.last())
    }
}

/// The signing form of grant terms.
pub open spec fn canonical_text(g: UserDataView) -> Seq<char> {
    "{\"id\":"@ + quoted(g.id) + ",\"expires\":"@ + quoted(iso_text(g.expires))
        + ",\"features\":{"@ + features_text(g.features) + "},\"max_users\":"@ + decimal(
        g.max_users,
    ) + ",\"key_phrase\":"@ + quoted(g.key_phrase) + "}"@
}

/// Appends the features as the members of a JSON object.
pub fn write_features(out: &mut String, features: &Features)
    ensures
        final(out)@ == old(out)@ + features_text(features@),
{
    let n: usize = features.len();
    let mut i: usize = 0;
    assert(features@.take(0) =~= Listing::empty());
    assert(out@ =~= old(out)@ + features_text(features@.take(0)));
    while i < n
        invariant
            i <= n,
            n == features@.len(),
            out@ == old(out)@ + features_text(features@.take(i as int)),
        decreases n - i,
    {
        let ghost before = out@;
        if i > 0 {
            push_char(out, ',');
        }
        write_quoted(out, features.name_at(i).as_str());
        push_char(out, ':');
        write_quoted(out, features.value_at(i).as_str());
        proof {
            let next = features@.take(i + 1);
            assert(next.drop_last() =~= features@.take(i as int));
            assert(next.last() == features@[i as int]);
            if i == 0 {
                assert(next[0] == features@[0]);
                assert(before =~= old(out)@);
            }
            assert(out@ =~= old(out)@ + features_text(next));
        }
        i += 1;
    }
    assert(features@.take(n as int) =~= features@);
}

/// Appends the signing form of grant terms.
pub fn write_canonical(out: &mut String, data: &UserData)
    ensures
        final(out)@ == old(out)@ + canonical_text(data@),
{
    out.append("{\"id\":");
    write_quoted(out, data.id.as_str());
    out.append(",\"expires\":");
    let expires: String = data.expires.to_text();
    write_quoted(out, expires.as_str());
    out.append(",\"features\":{");
    write_features(out, &data.features);
    out.append("},\"max_users\":");
    write_decimal(out, data.max_users as u64);
    out.append(",\"key_phrase\":");
    write_quoted(out, data.key_phrase.as_str());
    out.append("}");
    assert(out@ =~= old(out)@ + canonical_text(data@));
}

/// The signing form of grant terms.
pub fn canonical_form(data: &UserData) -> (r: String)
    ensures
        r@ == canonical_text(data@),
{
    let mut out = String::new();
    write_canonical(&mut out, data);
    assert(out@ =~= canonical_text(data@));
    out
}

} // verus!
