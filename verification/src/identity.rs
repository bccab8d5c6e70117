//! Opaque identities: participants and content addresses, both byte strings
//! that are only ever compared and copied.

use vstd::prelude::*;

verus! {

/// Whether two byte strings hold the same bytes.
pub fn bytes_equal(a: &Vec<u8>, b: &Vec<u8>) -> (same: bool)
    ensures
        same == (a@ == b@),
{
    if a.len() != b.len() {
        return false;
    }
    let n: usize = a.len();
    let mut i: usize = 0;
    while i < n
        invariant
            n == a.len(),
            n == b.len(),
            i <= n,
            forall|j: int| 0 <= j < i ==> a@[j] == b@[j],
        decreases n - i,
    {
        if a[i] != b[i] {
            return false;
        }
        i = i + 1;
    }
    assert(a@ =~= b@);
    true
}

/// A fresh byte string that holds the same bytes.
pub fn bytes_copy(a: &Vec<u8>) -> (copy: Vec<u8>)
    ensures
        copy@ == a@,
{
    let mut out: Vec<u8> = Vec::new();
    let n: usize = a.len();
    let mut i: usize = 0;
    while i < n
        invariant
            n == a.len(),
            i <= n,
            out@ == a@.subrange(0, i as int),
        decreases n - i,
    {
        out.push(a[i]);
        assert(out@ =~= a@.subrange(0, i + 1));
        i = i + 1;
    }
    assert(a@.subrange(0, n as int) =~= a@);
    out
}

/// The identity of a player: the raw bytes of a public key. The ledger never
/// makes one; it receives them and compares them.
#[derive(Debug)]
pub struct Participant {
    pub key: Vec<u8>,
}

impl View for Participant {
    type V = Seq<u8>;

    open spec fn view(&self) -> Seq<u8> {
        self.key@
    }
}

impl Participant {
    pub fn new(key: Vec<u8>) -> (p: Participant)
        ensures
            p@ == key@,
    {
        Participant { key }
    }

    /// Whether both name the same player.
    pub fn same(&self, other: &Participant) -> (same: bool)
        ensures
            same == (self@ == other@),
    {
        bytes_equal(&self.key, &other.key)
    }

    pub fn duplicate(&self) -> (copy: Participant)
        ensures
            copy@ == self@,
    {
        Participant { key: bytes_copy(&self.key) }
    }
}

/// The content address of a committed item: a record's header or its entry.
#[derive(Debug)]
pub struct ContentHash {
    pub bytes: Vec<u8>,
}

impl View for ContentHash {
    type V = Seq<u8>;

    open spec fn view(&self) -> Seq<u8> {
        self.bytes@
    }
}

impl ContentHash {
    pub fn new(bytes: Vec<u8>) -> (h: ContentHash)
        ensures
            h@ == bytes@,
    {
        ContentHash { bytes }
    }

    /// Whether both address the same content.
    pub fn same(&self, other: &ContentHash) -> (same: bool)
        ensures
            same == (self@ == other@),
    {
        bytes_equal(&self.bytes, &other.bytes)
    }

    pub fn duplicate(&self) -> (copy: ContentHash)
        ensures
            copy@ == self@,
    {
        ContentHash { bytes: bytes_copy(&self.bytes) }
    }
}

/// The view of an optional content address.
pub open spec fn view_opt_hash(h: Option<ContentHash>) -> Option<Seq<u8>> {
    match h {
        Some(x) => Some(x@),
        None => None,
    }
}

/// Whether two optional content addresses agree: both absent, or both
/// present and equal.
pub fn same_opt_hash(a: &Option<ContentHash>, b: &Option<ContentHash>) -> (same: bool)
    ensures
        same == (view_opt_hash(*a) == view_opt_hash(*b)),
{
    match (a, b) {
        (None, None) => true,
        (Some(x), Some(y)) => x.same(y),
        _ => false,
    }
}

pub fn duplicate_opt_hash(a: &Option<ContentHash>) -> (copy: Option<ContentHash>)
    ensures
        view_opt_hash(copy) == view_opt_hash(*a),
{
    match a {
        Some(x) => Some(x.duplicate()),
        None => None,
    }
}

/// The addresses of a list as mathematical values.
pub open spec fn view_hashes(hashes: Seq<ContentHash>) -> Seq<Seq<u8>> {
    hashes.map_values(|h: ContentHash| h@)
}

/// Whether `id` is one of `ids`.
pub fn contains_hash(ids: &Vec<ContentHash>, id: &ContentHash) -> (found: bool)
    ensures
        found == view_hashes(ids@).contains(id@),
{
    let n: usize = ids.len();
    let mut i: usize = 0;
    while i < n
        invariant
            n == ids@.len(),
            i <= n,
            forall|j: int| 0 <= j < i ==> view_hashes(ids@)[j] != id@,
        decreases n - i,
    {
        if ids[i].same(id) {
            assert(view_hashes(ids@)[i as int] == id@);
            return true;
        }
        i = i + 1;
    }
    false
}

} // verus!
