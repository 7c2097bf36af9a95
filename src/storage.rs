//! Content-addressed store for captured file bytes: each content is named
//! by the hex form of its SHA-256 digest and written at most once.

use vstd::prelude::*;

verus! {

/// The SHA-256 digest of `b`.
pub uninterp spec fn sha256_of(b: Seq<u8>) -> Seq<u8>;

/// Relies on sha2's `Sha256::digest`: the 32-byte SHA-256 digest of the
/// bytes, a function of the bytes alone.
#[verifier::external_body]
fn sha256(content: &[u8]) -> (r: Vec<u8>)
    ensures
        r@ == sha256_of(content@),
        r@.len() == 32,
{
    <sha2::Sha256 as sha2::Digest>::digest(content).to_vec()
}

/// The lower-case hex digit of `n`.
pub open spec fn hex_digit(n: int) -> char {
    seq!['0', '1', '2', '3', '4', '5', '6', '7', '8', '9', 'a', 'b', 'c', 'd', 'e', 'f'][n]
}

/// Two lower-case hex digits per byte, high half first.
pub open spec fn hex_of(b: Seq<u8>) -> Seq<char>
    decreases b.len(),
{
    if b.len() == 0 {
        Seq::empty()
    } else {
        hex_of(b.drop_last()) + seq![hex_digit(b.last() as int / 16), hex_digit(b.last() as int % 16)]
    }
}

/// Relies on hex's `encode`: two lower-case hex digits per byte, high half
/// first, in order.
#[verifier::external_body]
fn hex_encode(b: &Vec<u8>) -> (r: String)
    ensures
        r@ == hex_of(b@),
{
    hex::encode(b)
}

/// The name under which `content` is stored.
pub open spec fn digest_of(content: Seq<u8>) -> Seq<char> {
    hex_of(sha256_of(content))
}

/// `child` read against the directory `base`, as a path join does it.
pub open spec fn joined_path(base: Seq<char>, child: Seq<char>) -> Seq<char> {
    if child.len() > 0 && child[0] == '/' {
        child
    } else if base.len() == 0 {
        child
    } else if base.last() == '/' {
        base + child
    } else {
        base + seq!['/'] + child
    }
}

/// `child` read against the directory `base`.
pub fn join_path(base: &str, child: &str) -> (r: String)
    ensures
        r@ == joined_path(base@, child@),
{
    let n = base.unicode_len();
    if child.unicode_len() > 0 && child.get_char(0) == '/' {
        String::from_str(child)
    } else if n == 0 {
        String::from_str(child)
    } else if base.get_char(n - 1) == '/' {
        let mut r = String::from_str(base);
        r.append(child);
        r
    } else {
        let mut r = String::from_str(base);
        proof {
            reveal_strlit("/");
        }
        r.append("/");
        r.append(child);
        assert(r@ =~= base@ + seq!['/'] + child@);
        r
    }
}

/// One storing decision: the digests known afterwards, the digest, and
/// whether the content is to be written.
pub open spec fn store_step(stored: Set<Seq<char>>, content: Seq<u8>) -> (Set<Seq<char>>, Seq<char>, bool) {
    let d = digest_of(content);
    (stored.insert(d), d, !stored.contains(d))
}

/// Storing the same bytes twice gives the same digest both times, and
/// the second time nothing is written.
pub proof fn lemma_store_idempotent(stored: Set<Seq<char>>, content: Seq<u8>)
    ensures
        ({
            let (after_first, d1, _w1) = store_step(stored, content);
            let (after_second, d2, w2) = store_step(after_first, content);
            d1 == d2 && !w2 && after_second == after_first
        }),
{
    let (a, d1, w1) = store_step(stored, content);
    assert(a.insert(d1) =~= a);
}

/// Where and whether one content is to be written.
#[derive(Debug)]
pub struct StoredFile {
    /// The hex form of the content's SHA-256 digest.
    pub digest: String,
    /// The location named by the digest.
    pub path: String,
    /// No content with this digest was stored before: the bytes are to be
    /// written to `path`.
    pub write: bool,
}

/// Storage for captured files and malware.
pub struct FileStorage {
    base_path: String,
    stored: Vec<String>,
}

impl FileStorage {
    /// The directory that holds the stored files.
    pub closed spec fn base(&self) -> Seq<char> {
        self.base_path@
    }

    /// The digests stored so far.
    pub closed spec fn digests(&self) -> Set<Seq<char>> {
        self.stored@.map_values(|s: String| s@).to_set()
    }

    /// Create a new, empty file storage under `base_path`.
    pub fn new(base_path: String) -> (r: Self)
        ensures
            r.base() == base_path@,
            r.digests() == Set::<Seq<char>>::empty(),
    {
        let r = FileStorage { base_path, stored: Vec::new() };
        assert(r.digests() =~= Set::<Seq<char>>::empty());
        r
    }

    /// Get the path for a stored file by hash.
    pub fn get_path(&self, hash: &str) -> (r: String)
        ensures
            r@ == joined_path(self.base(), hash@),
    {
        join_path(self.base_path.as_str(), hash)
    }

    /// Whether content with this digest is stored.
    pub fn is_stored(&self, hash: &str) -> (r: bool)
        ensures
            r == self.digests().contains(hash@),
    {
        let mut i: usize = 0;
        while i < self.stored.len()
            invariant
                i <= self.stored.len(),
                forall|k: int| 0 <= k < i ==> self.stored@[k]@ != hash@,
            decreases self.stored.len() - i,
        {
            if crate::text::same_text(self.stored[i].as_str(), hash) {
                assert(self.stored@.map_values(|s: String| s@)[i as int] == hash@);
                return true;
            }
            i = i + 1;
        }
        let ghost names = self.stored@.map_values(|s: String| s@);
        assert(!self.digests().contains(hash@)) by {
            if names.contains(hash@) {
                let k = choose|k: int| 0 <= k < names.len() && names[k] == hash@;
                assert(self.stored@[k]@ == hash@);
            }
        }
        false
    }

    /// Store a content: compute its digest, and decide to write it to the
    /// location the digest names only if no content with that digest was
    /// stored before.
    pub fn store_file(&mut self, content: &[u8]) -> (r: StoredFile)
        ensures
            final(self).base() == old(self).base(),
            (final(self).digests(), r.digest@, r.write) == store_step(old(self).digests(), content@),
            r.path@ == joined_path(old(self).base(), r.digest@),
    {
        let hash = sha256(content);
        let digest = hex_encode(&hash);
        let path = self.get_path(digest.as_str());
        let write = !self.is_stored(digest.as_str());
        if write {
            let ghost before = self.stored@.map_values(|s: String| s@);
            self.stored.push(digest.clone());
            assert(self.stored@.map_values(|s: String| s@) =~= before.push(digest@));
            assert(self.digests() =~= old(self).digests().insert(digest@)) by {
                assert forall|x| self.digests().contains(x) implies old(self).digests().insert(digest@).contains(x) by {
                    let k = choose|k: int| 0 <= k < before.len() + 1 && before.push(digest@)[k] == x;
                    if k < before.len() {
                        assert(before[k] == x);
                    }
                }
                assert forall|x| old(self).digests().insert(digest@).contains(x) implies self.digests().contains(x) by {
                    if x == digest@ {
                        assert(before.push(digest@)[before.len() as int] == x);
                    } else {
                        let k = choose|k: int| 0 <= k < before.len() && before[k] == x;
                        assert(before.push(digest@)[k] == x);
                    }
                }
            }
        } else {
            assert(self.digests() =~= old(self).digests().insert(digest@));
        }
        StoredFile { digest, path, write }
    }
}

impl Default for FileStorage {
    fn default() -> (r: Self)
        ensures
            r.base() == "./captured_files"@,
            r.digests() == Set::<Seq<char>>::empty(),
    {
        Self::new(String::from_str("./captured_files"))
    }
}

} // verus!
