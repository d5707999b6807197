//! The stored form of a license: a JSON document with the grant terms under
//! `grantData` and the signing data under `signingData`.
//!
//! The document is written here, indented by two spaces. Reading goes
//! through `serde_json`, so layout and unknown members do not matter.

use crate::data::{License, LicenseView};
use crate::encoding::{decimal, push_char, quoted, write_decimal, write_quoted};
use crate::features::{Features, Listing};
use crate::instant::iso_text;
use vstd::prelude::*;

verus! {

/// One feature on a line of its own.
pub open spec fn feature_row(entry: (Seq<char>, Seq<char>)) -> Seq<char> {
    "      "@ + quoted(entry.0) + ": "@ + quoted(entry.1)
}

/// The features, a line each, with commas between them.
pub open spec fn feature_rows(s: Listing) -> Seq<char>
    decreases s.len(),
{
    if s.len() == 0 {
        Seq::empty()
    } else if s.len() == 1 {
        feature_row(s[0])
    } else {
        feature_rows(s.drop_last()) + ",\n"@ + feature_row(s.last())
    }
}

/// The features as a JSON object.
pub open spec fn features_block(s: Listing) -> Seq<char> {
    if s.len() == 0 {
        "{}"@
    } else {
        "{\n"@ + feature_rows(s) + "\n    }"@
    }
}

/// The bytes, a line each, with commas between them.
pub open spec fn byte_rows(b: Seq<u8>) -> Seq<char>
    decreases b.len(),
{
    if b.len() == 0 {
        Seq::empty()
    } else if b.len() == 1 {
        "      "@ + decimal(b[0] as nat)
    } else {
        byte_rows(b.drop_last()) + ",\n"@ + "      "@ + decimal(b.last() as nat)
    }
}

/// The bytes as a JSON array of numbers.
pub open spec fn bytes_block(b: Seq<u8>) -> Seq<char> {
    if b.len() == 0 {
        "[]"@
    } else {
        "[\n"@ + byte_rows(b) + "\n    ]"@
    }
}

/// The stored form of a license.
pub open spec fn stored_text(l: LicenseView) -> Seq<char> {
    "{\n  \"grantData\": {\n    \"id\": "@ + quoted(l.user_data.id) + ",\n    \"expires\": "@
        + quoted(iso_text(l.user_data.expires)) + ",\n    \"features\": "@ + features_block(
        l.user_data.features,
    ) + ",\n    \"max_users\": "@ + decimal(l.user_data.max_users)
        + ",\n    \"key_phrase\": "@ + quoted(l.user_data.key_phrase)
        + "\n  },\n  \"signingData\": {\n    \"signature_bytes\": "@ + bytes_block(
        l.signing_data.sig_bytes,
    ) + ",\n    \"public_key_bytes\": "@ + bytes_block(l.signing_data.pub_key) + "\n  }\n}"@
}

/// Appends the features as a JSON object.
pub fn write_features_block(out: &mut String, features: &Features)
    ensures
        final(out)@ == old(out)@ + features_block(features@),
{
    let n: usize = features.len();
    if n == 0 {
        out.append("{}");
        return ;
    }
    out.append("{\n");
    let ghost start = out@;
    let mut i: usize = 0;
    assert(features@.take(0) =~= Listing::empty());
    assert(out@ =~= start + feature_rows(features@.take(0)));
    while i < n
        invariant
            i <= n,
            n == features@.len(),
            out@ == start + feature_rows(features@.take(i as int)),
        decreases n - i,
    {
        if i > 0 {
            out.append(",\n");
        }
        out.append("      ");
        write_quoted(out, features.name_at(i).as_str());
        out.append(": ");
        write_quoted(out, features.value_at(i).as_str());
        proof {
            let next = features@.take(i + 1);
            assert(next.drop_last() =~= features@.take(i as int));
            assert(next.last() == features@[i as int]);
            if i == 0 {
                assert(next[0] == features@[0]);
            }
            assert(out@ =~= start + feature_rows(next));
        }
        i += 1;
    }
    assert(features@.take(n as int) =~= features@);
    out.append("\n    }");
    assert(out@ =~= old(out)@ + features_block(features@));
}

/// Appends the bytes as a JSON array of numbers.
pub fn write_bytes_block(out: &mut String, bytes: &Vec<u8>)
    ensures
        final(out)@ == old(out)@ + bytes_block(bytes@),
{
    let n: usize = bytes.len();
    if n == 0 {
        out.append("[]");
        return ;
    }
    out.append("[\n");
    let ghost start = out@;
    let mut i: usize = 0;
    assert(bytes@.take(0) =~= Seq::<u8>::empty());
    assert(out@ =~= start + byte_rows(bytes@.take(0)));
    while i < n
        invariant
            i <= n,
            n == bytes@.len(),
            out@ == start + byte_rows(bytes@.take(i as int)),
        decreases n - i,
    {
        if i > 0 {
            out.append(",\n");
        }
        out.append("      ");
        write_decimal(out, bytes[i] as u64);
        proof {
            let next = bytes@.take(i + 1);
            assert(next.drop_last() =~= bytes@.take(i as int));
            assert(next.last() == bytes@[i as int]);
            if i == 0 {
                assert(next[0] == bytes@[0]);
            }
            assert(out@ =~= start + byte_rows(next));
        }
        i += 1;
    }
    assert(bytes@.take(n as int) =~= bytes@);
    out.append("\n    ]");
    assert(out@ =~= old(out)@ + bytes_block(bytes@));
}

impl License {
    /// The stored form of the license: grant terms and signing data as an
    /// indented JSON document.
    pub fn all_to_json(&self) -> (r: String)
        ensures
            r@ == stored_text(self@),
    {
        let mut out = String::new();
        out.append("{\n  \"grantData\": {\n    \"id\": ");
        write_quoted(&mut out, self.user_data.id.as_str());
        out.append(",\n    \"expires\": ");
        let expires: String = self.user_data.expires.to_text();
        write_quoted(&mut out, expires.as_str());
        out.append(",\n    \"features\": ");
        write_features_block(&mut out, &self.user_data.features);
        out.append(",\n    \"max_users\": ");
        write_decimal(&mut out, self.user_data.max_users as u64);
        out.append(",\n    \"key_phrase\": ");
        write_quoted(&mut out, self.user_data.key_phrase.as_str());
        out.append("\n  },\n  \"signingData\": {\n    \"signature_bytes\": ");
        write_bytes_block(&mut out, &self.signing_data.sig_bytes);
        out.append(",\n    \"public_key_bytes\": ");
        write_bytes_block(&mut out, &self.signing_data.pub_key);
        out.append("\n  }\n}");
        assert(out@ =~= stored_text(self@));
        out
    }
}

} // verus!
