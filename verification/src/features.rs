//! The feature table of a license: names with a parameter each, every name
//! once, kept in ascending order of the names' UTF-8 bytes.
//!
//! The order is what makes the signing form reproducible: two tables with the
//! same entries list them alike, whatever the order they were filled in.

use vstd::prelude::*;
use vstd::string::StringSliceAdditionalSpecFns;
use vstd::utf8::encode_utf8;

verus! {

/// A feature table as a list: pairs of name and parameter.
pub type Listing = Seq<(Seq<char>, Seq<char>)>;

/// Whether `a` comes before `b` in the dictionary order of bytes: at the
/// first place where they differ `a` has the smaller byte, or `a` ends there
/// and `b` does not.
pub open spec fn bytes_before(a: Seq<u8>, b: Seq<u8>) -> bool
    decreases a.len(),
{
    if b.len() == 0 {
        false
    } else if a.len() == 0 {
        true
    } else if a[0] != b[0] {
        a[0] < b[0]
    } else {
        bytes_before(a.skip(1), b.skip(1))
    }
}

/// Whether the name `a` is listed before the name `b`: by their UTF-8 bytes.
pub open spec fn key_before(a: Seq<char>, b: Seq<char>) -> bool {
    bytes_before(encode_utf8(a), encode_utf8(b))
}

/// Whether the names of a listing ascend strictly, so that none occurs twice.
pub open spec fn sorted(s: Listing) -> bool {
    forall|i: int, j: int| 0 <= i < j < s.len() ==> key_before(#[trigger] s[i].0, #[trigger] s[j].0)
}

/// Whether the listing has an entry for `name`.
pub open spec fn has_key(s: Listing, name: Seq<char>) -> bool {
    exists|i: int| 0 <= i < s.len() && (#[trigger] s[i]).0 == name
}

/// A place at which the listing has an entry for `name`, where it has one.
pub open spec fn index_of(s: Listing, name: Seq<char>) -> int {
    choose|i: int| 0 <= i < s.len() && (#[trigger] s[i]).0 == name
}

/// The parameter that the listing holds for `name`, where it has an entry.
pub open spec fn value_of(s: Listing, name: Seq<char>) -> Seq<char> {
    s[index_of(s, name)].1
}

/// The listing as a mapping from names to parameters.
pub open spec fn as_map(s: Listing) -> Map<Seq<char>, Seq<char>> {
    Map::new(|name: Seq<char>| has_key(s, name), |name: Seq<char>| value_of(s, name))
}

/// The number of leading entries whose names come before `name`: in a
/// sorted listing, the place where an entry for `name` stands or belongs.
pub open spec fn rank(s: Listing, name: Seq<char>) -> int
    decreases s.len(),
{
    if s.len() == 0 || !key_before(s[0].0, name) {
        0
    } else {
        1 + rank(s.skip(1), name)
    }
}

/// The listing with the parameter of `name` set: over the entry of that name
/// where there is one, else in a new entry at the place where it belongs.
pub open spec fn upsert(s: Listing, name: Seq<char>, value: Seq<char>) -> Listing {
    let i = rank(s, name);
    if i < s.len() && s[i].0 == name {
        s.update(i, (name, value))
    } else {
        s.insert(i, (name, value))
    }
}

/// The listing of a vector of entries.
pub open spec fn listing_of(v: Seq<(String, String)>) -> Listing {
    Seq::new(v.len(), |i: int| (v[i].0@, v[i].1@))
}

/// How one name stands to another in listing order.
#[derive(Clone, Copy, Debug, PartialEq, Eq)]
pub enum KeyOrder {
    Before,
    Same,
    After,
}

/// The names of a sorted listing differ from each other.
pub proof fn lemma_before_differs(a: Seq<u8>, b: Seq<u8>)
    requires
        bytes_before(a, b),
    ensures
        a != b,
        !bytes_before(b, a),
    decreases a.len(),
{
    if a.len() > 0 && b.len() > 0 && a[0] == b[0] {
        lemma_before_differs(a.skip(1), b.skip(1));
        if a == b {
            assert(a.skip(1) == b.skip(1));
        }
    }
}

/// The dictionary order of bytes is transitive.
pub proof fn lemma_before_transitive(a: Seq<u8>, b: Seq<u8>, c: Seq<u8>)
    requires
        bytes_before(a, b),
        bytes_before(b, c),
    ensures
        bytes_before(a, c),
    decreases a.len(),
{
    if a.len() > 0 && a[0] == b[0] && b[0] == c[0] {
        lemma_before_transitive(a.skip(1), b.skip(1), c.skip(1));
    }
}

/// Of two different byte strings one comes before the other.
pub proof fn lemma_before_total(a: Seq<u8>, b: Seq<u8>)
    requires
        a != b,
    ensures
        bytes_before(a, b) || bytes_before(b, a),
    decreases a.len(),
{
    if a.len() > 0 && b.len() > 0 && a[0] == b[0] {
        if a.skip(1) == b.skip(1) {
            assert(a =~= seq![a[0]] + a.skip(1));
            assert(b =~= seq![b[0]] + b.skip(1));
        }
        lemma_before_total(a.skip(1), b.skip(1));
    } else if a.len() == 0 && b.len() == 0 {
        assert(a =~= b);
    }
}

/// The rank of `name` is the one place with nothing but earlier names before
/// it and no earlier name at it.
pub proof fn lemma_rank(s: Listing, name: Seq<char>, i: int)
    requires
        0 <= i <= s.len(),
        forall|j: int| 0 <= j < i ==> key_before(#[trigger] s[j].0, name),
        i < s.len() ==> !key_before(s[i].0, name),
    ensures
        rank(s, name) == i,
    decreases i,
{
    if i > 0 {
        let t = s.skip(1);
        assert forall|j: int| 0 <= j < i - 1 implies key_before(#[trigger] t[j].0, name) by {
            assert(t[j] == s[j + 1]);
        }
        if i - 1 < t.len() {
            assert(t[i - 1] == s[i]);
        }
        assert(key_before(s[0].0, name));
        lemma_rank(t, name, i - 1);
    }
}

/// Two names with the same UTF-8 bytes are the same name.
pub proof fn lemma_same_bytes_same_name(a: Seq<char>, b: Seq<char>)
    requires
        encode_utf8(a) == encode_utf8(b),
    ensures
        a == b,
{
    vstd::utf8::encode_utf8_decode_utf8(a);
    vstd::utf8::encode_utf8_decode_utf8(b);
}

/// In a sorted listing the entry at `i` is the one found under its name.
pub proof fn lemma_entry_found(s: Listing, i: int)
    requires
        sorted(s),
        0 <= i < s.len(),
    ensures
        has_key(s, s[i].0),
        value_of(s, s[i].0) == s[i].1,
{
    let j = index_of(s, s[i].0);
    if j < i {
        lemma_before_differs(encode_utf8(s[j].0), encode_utf8(s[i].0));
    } else if i < j {
        lemma_before_differs(encode_utf8(s[i].0), encode_utf8(s[j].0));
    }
}

/// How `a` stands to `b` in listing order.
pub fn key_order(a: &str, b: &str) -> (r: KeyOrder)
    ensures
        r is Before <==> key_before(a@, b@),
        r is Same <==> a@ == b@,
        r is After <==> key_before(b@, a@),
{
    let x = a.as_bytes();
    let y = b.as_bytes();
    let mut i: usize = 0;
    assert(x@.skip(0) == x@ && y@.skip(0) == y@);
    while i < x.len() && i < y.len()
        invariant
            i <= x.len(),
            i <= y.len(),
            x@ == encode_utf8(a@),
            y@ == encode_utf8(b@),
            bytes_before(x@, y@) == bytes_before(x@.skip(i as int), y@.skip(i as int)),
            bytes_before(y@, x@) == bytes_before(y@.skip(i as int), x@.skip(i as int)),
            (x@ == y@) == (x@.skip(i as int) == y@.skip(i as int)),
        decreases x.len() - i,
    {
        let ghost p = x@.skip(i as int);
        let ghost q = y@.skip(i as int);
        assert(p[0] == x@[i as int] && q[0] == y@[i as int]);
        if x[i] != y[i] {
            assert(p != q);
            return if x[i] < y[i] {
                KeyOrder::Before
            } else {
                KeyOrder::After
            };
        }
        assert(p.skip(1) == x@.skip(i + 1));
        assert(q.skip(1) == y@.skip(i + 1));
        assert(p == q <==> p.skip(1) == q.skip(1)) by {
            if p.skip(1) == q.skip(1) {
                assert(p =~= seq![p[0]] + p.skip(1));
                assert(q =~= seq![q[0]] + q.skip(1));
            }
        }
        i += 1;
    }
    let ghost p = x@.skip(i as int);
    let ghost q = y@.skip(i as int);
    if x.len() == y.len() {
        assert(p =~= q);
        proof {
            lemma_same_bytes_same_name(a@, b@);
        }
        KeyOrder::Same
    } else if i == x.len() {
        assert(p.len() == 0 && q.len() > 0);
        KeyOrder::Before
    } else {
        assert(q.len() == 0 && p.len() > 0);
        KeyOrder::After
    }
}

/// The features of a license.
#[derive(Debug, PartialEq, Eq)]
pub struct Features {
    entries: Vec<(String, String)>,
}

impl View for Features {
    type V = Listing;

    closed spec fn view(&self) -> Listing {
        listing_of(self.entries@)
    }
}

impl Features {
    #[verifier::type_invariant]
    spec fn well_formed(self) -> bool {
        sorted(self@)
    }

    /// A table without entries.
    pub fn new() -> (r: Features)
        ensures
            r@ == Listing::empty(),
    {
        let r = Features { entries: Vec::new() };
        assert(r@ =~= Listing::empty());
        r
    }

    /// The number of entries.
    pub fn len(&self) -> (r: usize)
        ensures
            r == self@.len(),
            sorted(self@),
    {
        proof {
            use_type_invariant(self);
        }
        self.entries.len()
    }

    /// The name of the entry at `i`, in listing order.
    pub fn name_at(&self, i: usize) -> (r: &String)
        requires
            i < self@.len(),
        ensures
            r@ == self@[i as int].0,
    {
        &self.entries[i].0
    }

    /// The parameter of the entry at `i`, in listing order.
    pub fn value_at(&self, i: usize) -> (r: &String)
        requires
            i < self@.len(),
        ensures
            r@ == self@[i as int].1,
    {
        &self.entries[i].1
    }

    /// The place of `name` in the listing: where its entry stands, or where
    /// one would have to go.
    fn position(&self, name: &str) -> (r: (usize, bool))
        ensures
            r.0 <= self@.len(),
            forall|j: int| 0 <= j < r.0 ==> key_before(#[trigger] self@[j].0, name@),
            r.1 ==> r.0 < self@.len() && self@[r.0 as int].0 == name@,
            !r.1 ==> forall|j: int| r.0 <= j < self@.len() ==> key_before(name@, #[trigger] self@[j].0),
            r.0 == rank(self@, name@),
            sorted(self@),
    {
        proof {
            use_type_invariant(self);
        }
        let mut i: usize = 0;
        while i < self.entries.len()
            invariant
                i <= self@.len(),
                self@.len() == self.entries@.len(),
                sorted(self@),
                forall|j: int| 0 <= j < i ==> key_before(#[trigger] self@[j].0, name@),
            decreases self.entries.len() - i,
        {
            match key_order(self.entries[i].0.as_str(), name) {
                KeyOrder::Before => {
                    i += 1;
                },
                KeyOrder::Same => {
                    proof {
                        if key_before(self@[i as int].0, name@) {
                            lemma_before_differs(encode_utf8(name@), encode_utf8(name@));
                        }
                        lemma_rank(self@, name@, i as int);
                    }
                    return (i, true);
                },
                KeyOrder::After => {
                    assert forall|j: int| i <= j < self@.len() implies key_before(
                        name@,
                        #[trigger] self@[j].0,
                    ) by {
                        if i < j {
                            lemma_before_transitive(
                                encode_utf8(name@),
                                encode_utf8(self@[i as int].0),
                                encode_utf8(self@[j].0),
                            );
                        }
                    }
                    proof {
                        lemma_before_differs(encode_utf8(name@), encode_utf8(self@[i as int].0));
                        lemma_rank(self@, name@, i as int);
                    }
                    return (i, false);
                },
            }
        }
        proof {
            lemma_rank(self@, name@, i as int);
        }
        (i, false)
    }

    /// Whether the table has an entry for `name`.
    pub fn contains(&self, name: &str) -> (r: bool)
        ensures
            r == has_key(self@, name@),
    {
        let (i, found) = self.position(name);
        proof {
            if !found && has_key(self@, name@) {
                let j = index_of(self@, name@);
                if j < i {
                    lemma_before_differs(encode_utf8(self@[j].0), encode_utf8(name@));
                } else {
                    lemma_before_differs(encode_utf8(name@), encode_utf8(self@[j].0));
                }
            }
        }
        found
    }

    /// The parameter of `name`, where the table has an entry for it.
    pub fn get(&self, name: &str) -> (r: Option<&String>)
        ensures
            r is Some <==> has_key(self@, name@),
            r matches Some(v) ==> v@ == value_of(self@, name@),
    {
        let (i, found) = self.position(name);
        proof {
            if found {
                lemma_entry_found(self@, i as int);
            } else if has_key(self@, name@) {
                let j = index_of(self@, name@);
                if j < i {
                    lemma_before_differs(encode_utf8(self@[j].0), encode_utf8(name@));
                } else {
                    lemma_before_differs(encode_utf8(name@), encode_utf8(self@[j].0));
                }
            }
        }
        if found {
            Some(&self.entries[i].1)
        } else {
            None
        }
    }

    /// The table with the parameter of `name` set, in a new entry where there
    /// was none.
    pub fn with_entry(self, name: String, value: String) -> (r: Features)
        ensures
            r@ == upsert(self@, name@, value@),
    {
        let (i, found) = self.position(name.as_str());
        let ghost before = self@;
        let ghost entry = (name@, value@);
        let mut entries = self.entries;
        if found {
            entries.remove(i);
            entries.insert(i, (name, value));
            assert(listing_of(entries@) =~= before.update(i as int, entry));
        } else {
            proof {
                if i < before.len() && before[i as int].0 == entry.0 {
                    lemma_before_differs(encode_utf8(entry.0), encode_utf8(entry.0));
                }
            }
            entries.insert(i, (name, value));
            assert(listing_of(entries@) =~= before.insert(i as int, entry));
        }
        proof {
            lemma_upsert(before, entry.0, entry.1);
        }
        Features { entries }
    }
}

/// What `rank` finds in a sorted listing: the names before it come before
/// `name`, and the names from it on are `name` itself, at most once and
/// first, or come after `name`.
pub proof fn lemma_rank_splits(s: Listing, name: Seq<char>)
    requires
        sorted(s),
    ensures
        0 <= rank(s, name) <= s.len(),
        forall|j: int| 0 <= j < rank(s, name) ==> key_before(#[trigger] s[j].0, name),
        forall|j: int|
            rank(s, name) <= j < s.len() ==> (#[trigger] s[j]).0 == name && j == rank(s, name)
                || key_before(name, s[j].0),
    decreases s.len(),
{
    if s.len() == 0 {
    } else if !key_before(s[0].0, name) {
        assert forall|j: int| 0 <= j < s.len() implies (#[trigger] s[j]).0 == name && j == 0
            || key_before(name, s[j].0) by {
            if s[0].0 != name {
                if encode_utf8(s[0].0) == encode_utf8(name) {
                    lemma_same_bytes_same_name(s[0].0, name);
                }
                lemma_before_total(encode_utf8(s[0].0), encode_utf8(name));
            }
            if j > 0 {
                if s[0].0 != name {
                    lemma_before_transitive(
                        encode_utf8(name),
                        encode_utf8(s[0].0),
                        encode_utf8(s[j].0),
                    );
                }
            }
        }
    } else {
        let t = s.skip(1);
        assert forall|a: int, b: int| 0 <= a < b < t.len() implies key_before(
            #[trigger] t[a].0,
            #[trigger] t[b].0,
        ) by {
            assert(t[a] == s[a + 1] && t[b] == s[b + 1]);
        }
        lemma_rank_splits(t, name);
        let i = rank(s, name);
        assert forall|j: int| 0 <= j < i implies key_before(#[trigger] s[j].0, name) by {
            if j > 0 {
                assert(s[j] == t[j - 1]);
            }
        }
        assert forall|j: int| i <= j < s.len() implies (#[trigger] s[j]).0 == name && j == i
            || key_before(name, s[j].0) by {
            assert(s[j] == t[j - 1]);
        }
    }
}

/// Setting a parameter in a sorted listing gives a sorted listing that maps
/// the name to the new parameter and every other name as before.
pub proof fn lemma_upsert(s: Listing, name: Seq<char>, value: Seq<char>)
    requires
        sorted(s),
    ensures
        sorted(upsert(s, name, value)),
        as_map(upsert(s, name, value)) == as_map(s).insert(name, value),
{
    lemma_rank_splits(s, name);
    let i = rank(s, name);
    let found = i < s.len() && s[i].0 == name;
    let after = upsert(s, name, value);
    assert forall|a: int, b: int| 0 <= a < b < after.len() implies key_before(
        #[trigger] after[a].0,
        #[trigger] after[b].0,
    ) by {
        if found {
            assert(after[a].0 == s[a].0);
            assert(after[b].0 == s[b].0);
        } else {
            let a0 = if a < i {
                a
            } else {
                a - 1
            };
            let b0 = if b < i {
                b
            } else {
                b - 1
            };
            if a != i {
                assert(after[a] == s[a0]);
            }
            if b != i {
                assert(after[b] == s[b0]);
                if a == i {
                    assert(key_before(name, s[b0].0));
                }
            }
        }
    }
    assert(after[i] == (name, value));
    lemma_entry_found(after, i);
    assert forall|q: Seq<char>| q != name implies (has_key(after, q) <==> has_key(s, q)) && (
    has_key(s, q) ==> value_of(after, q) == value_of(s, q)) by {
        if has_key(s, q) {
            let j = index_of(s, q);
            lemma_entry_found(s, j);
            let j1 = if found || j < i {
                j
            } else {
                j + 1
            };
            assert(after[j1] == s[j]);
            lemma_entry_found(after, j1);
        }
        if has_key(after, q) {
            let j = index_of(after, q);
            let j0 = if found || j < i {
                j
            } else {
                j - 1
            };
            assert(s[j0] == after[j]);
        }
    }
    assert(as_map(after) =~= as_map(s).insert(name, value));
}

} // verus!
