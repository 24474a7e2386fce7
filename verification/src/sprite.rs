//! Sprite resolution: turning a record's sprite locator into image bytes.
//! The embedded-bundle strategy normalizes the locator to a bare file name
//! and looks it up in an in-memory mapping; the remote strategy is plain
//! transport and stays with the caller.

use vstd::prelude::*;

use crate::error::Error;

verus! {

/// The fixed base URL that the record backends prepend to a sprite file
/// name.
pub open spec fn sprite_base_url() -> Seq<char> {
    "https://raw.githubusercontent.com/PokeAPI/sprites/master/sprites/pokemon/"@
}

/// A locator is normalized by stripping the fixed base URL, leaving the bare
/// file name; a locator that does not start with the base is kept whole.
pub open spec fn normalized_key(locator: Seq<char>) -> Seq<char> {
    if sprite_base_url().is_prefix_of(locator) {
        locator.skip(sprite_base_url().len() as int)
    } else {
        locator
    }
}

/// The base URL as a slice, tied to its specification-level value.
fn base_url_str() -> (r: &'static str)
    ensures
        r@ == sprite_base_url(),
{
    let s = "https://raw.githubusercontent.com/PokeAPI/sprites/master/sprites/pokemon/";
    s
}

/// Character-for-character string equality.
pub(crate) fn chars_equal(a: &str, b: &str) -> (r: bool)
    ensures
        r == (a@ == b@),
{
    let n = a.unicode_len();
    let m = b.unicode_len();
    if n != m {
        return false;
    }
    let mut i: usize = 0;
    while i < n
        invariant
            n == a@.len(),
            n == b@.len(),
            i <= n,
            forall|j: int| 0 <= j < i ==> a@[j] == b@[j],
        decreases n - i,
    {
        if a.get_char(i) != b.get_char(i) {
            return false;
        }
        i = i + 1;
    }
    proof {
        assert(a@ =~= b@);
    }
    true
}

/// Does the locator start with the fixed base URL?
fn starts_with_base(s: &str) -> (r: bool)
    ensures
        r == sprite_base_url().is_prefix_of(s@),
{
    let base = base_url_str();
    let n = base.unicode_len();
    let m = s.unicode_len();
    if m < n {
        return false;
    }
    let mut i: usize = 0;
    while i < n
        invariant
            base@ == sprite_base_url(),
            n == base@.len(),
            m == s@.len(),
            n <= m,
            i <= n,
            forall|j: int| 0 <= j < i ==> base@[j] == s@[j],
        decreases n - i,
    {
        if base.get_char(i) != s.get_char(i) {
            proof {
                assert(!sprite_base_url().is_prefix_of(s@)) by {
                    if sprite_base_url().is_prefix_of(s@) {
                        assert(base@[i as int] == s@.subrange(0, n as int)[i as int]);
                    }
                }
            }
            return false;
        }
        i = i + 1;
    }
    proof {
        assert(base@ =~= s@.subrange(0, n as int));
    }
    true
}

/// Strips the fixed base URL from a sprite locator, leaving the bare file
/// name key of the embedded bundle.
pub fn normalize_locator(locator: &str) -> (r: String)
    ensures
        r@ == normalized_key(locator@),
{
    if starts_with_base(locator) {
        let base = base_url_str();
        let n = base.unicode_len();
        let m = locator.unicode_len();
        let tail = locator.substring_char(n, m);
        proof {
            assert(tail@ =~= locator@.skip(sprite_base_url().len() as int));
        }
        tail.to_owned()
    } else {
        locator.to_owned()
    }
}

/// The in-memory sprite bundle: file names mapped to the bytes of the PNG
/// file of that name, loaded once at startup and read-only afterwards.
pub struct SpriteBundle {
    entries: Vec<(String, Vec<u8>)>,
}

/// The mapping held by a sequence of entries; an earlier entry shadows a
/// later one of the same name.
pub open spec fn entries_map(s: Seq<(String, Vec<u8>)>) -> Map<Seq<char>, Seq<u8>>
    decreases s.len(),
{
    if s.len() == 0 {
        Map::empty()
    } else {
        entries_map(s.drop_first()).insert(s[0].0@, s[0].1@)
    }
}

impl View for SpriteBundle {
    type V = Map<Seq<char>, Seq<u8>>;

    closed spec fn view(&self) -> Map<Seq<char>, Seq<u8>> {
        entries_map(self.entries@)
    }
}

proof fn lemma_first_match(s: Seq<(String, Vec<u8>)>, k: Seq<char>, i: int)
    requires
        0 <= i < s.len(),
        s[i].0@ == k,
        forall|j: int| 0 <= j < i ==> s[j].0@ != k,
    ensures
        entries_map(s).contains_key(k),
        entries_map(s)[k] == s[i].1@,
    decreases i,
{
    if i > 0 {
        lemma_first_match(s.drop_first(), k, i - 1);
    }
}

proof fn lemma_no_match(s: Seq<(String, Vec<u8>)>, k: Seq<char>)
    requires
        forall|j: int| 0 <= j < s.len() ==> s[j].0@ != k,
    ensures
        !entries_map(s).contains_key(k),
    decreases s.len(),
{
    if s.len() > 0 {
        lemma_no_match(s.drop_first(), k);
    }
}

impl SpriteBundle {
    /// An empty bundle.
    pub fn new() -> (r: SpriteBundle)
        ensures
            r@ == Map::<Seq<char>, Seq<u8>>::empty(),
    {
        SpriteBundle { entries: Vec::new() }
    }

    /// Adds one file to the bundle; a repeated name takes the new bytes.
    pub fn add_sprite(&mut self, name: String, bytes: Vec<u8>)
        ensures
            final(self)@ == old(self)@.insert(name@, bytes@),
    {
        let ghost prev = self.entries@;
        let ghost k = name@;
        let ghost b = bytes@;
        self.entries.insert(0, (name, bytes));
        proof {
            assert(self.entries@.drop_first() =~= prev);
            assert(entries_map(self.entries@) == entries_map(prev).insert(k, b));
        }
    }

    /// Looks a bare file name up in the bundle.
    pub fn get(&self, key: &str) -> (r: Option<&Vec<u8>>)
        ensures
            r is Some <==> self@.contains_key(key@),
            r matches Some(b) ==> b@ == self@[key@],
    {
        let n = self.entries.len();
        let mut i: usize = 0;
        while i < n
            invariant
                n == self.entries@.len(),
                i <= n,
                forall|j: int| 0 <= j < i ==> self.entries@[j].0@ != key@,
            decreases n - i,
        {
            let entry = &self.entries[i];
            if chars_equal(entry.0.as_str(), key) {
                proof {
                    lemma_first_match(self.entries@, key@, i as int);
                }
                return Some(&self.entries[i].1);
            }
            i = i + 1;
        }
        proof {
            lemma_no_match(self.entries@, key@);
        }
        None
    }
}

/// Resolves a sprite locator against the embedded bundle: the locator is
/// normalized to a bare file name and the bytes of that file are returned;
/// a miss means the bundle and the record backend have drifted apart.
pub fn fetch_embedded(bundle: &SpriteBundle, locator: &str) -> (r: Result<Vec<u8>, Error>)
    ensures
        bundle@.contains_key(normalized_key(locator@)) ==> (r matches Ok(b) && b@
            == bundle@[normalized_key(locator@)]),
        !bundle@.contains_key(normalized_key(locator@)) ==> r == Err::<Vec<u8>, Error>(
            Error::MissingAsset,
        ),
{
    let key = normalize_locator(locator);
    match bundle.get(key.as_str()) {
        Some(b) => Ok(vstd::slice::slice_to_vec(b.as_slice())),
        None => Err(Error::MissingAsset),
    }
}

} // verus!
