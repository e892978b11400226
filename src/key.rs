use vstd::prelude::*;

verus! {

/// Length in bytes of a BLAKE2b digest.
pub const DIGEST_LEN: usize = 64;

/// What BLAKE2b-512 yields on the given bytes.
pub uninterp spec fn blake2b_of(data: Seq<u8>) -> Seq<u8>;

/// Relies on `blake2::Blake2b` (`Digest::digest`): the 64-byte BLAKE2b digest
/// of the input, a function of the bytes alone.
#[verifier::external_body]
fn blake2b_digest(data: &[u8]) -> (r: Vec<u8>)
    ensures
        r@ == blake2b_of(data@),
        r@.len() == DIGEST_LEN,
{
    <blake2::Blake2b as blake2::Digest>::digest(data).to_vec()
}

/// Lowercase hexadecimal digit of a nibble.
pub open spec fn hex_digit(n: u8) -> char {
    seq!['0', '1', '2', '3', '4', '5', '6', '7', '8', '9', 'a', 'b', 'c', 'd', 'e', 'f'][(n % 16) as int]
}

/// Lowercase hexadecimal form of a byte sequence, two digits per byte, high
/// nibble first.
pub open spec fn hex_of(b: Seq<u8>) -> Seq<char> {
    Seq::new(
        2 * b.len(),
        |i: int|
            if i % 2 == 0 {
                hex_digit(b[i / 2] / 16)
            } else {
                hex_digit(b[i / 2] % 16)
            },
    )
}

/// Relies on `hex::encode`: two lowercase digits for each byte, high nibble
/// first.
#[verifier::external_body]
fn hex_encode(b: &[u8]) -> (r: String)
    ensures
        r@ == hex_of(b@),
{
    hex::encode(b)
}

/// All chunks joined in order.
pub open spec fn concat(chunks: Seq<Vec<u8>>) -> Seq<u8>
    decreases chunks.len(),
{
    if chunks.len() == 0 {
        Seq::empty()
    } else {
        concat(chunks.drop_last()) + chunks.last()@
    }
}

/// Handle of a file in the store: the digest of the file's content.
#[derive(Clone, Debug)]
pub struct FileStoreKey {
    hash: Vec<u8>,
}

impl View for FileStoreKey {
    type V = Seq<u8>;

    closed spec fn view(&self) -> Seq<u8> {
        self.hash@
    }
}

/// Where the file of a key lives, below the store's base directory:
/// `first/second/name`.
#[derive(Clone, Debug)]
pub struct ShardPath {
    pub first: String,
    pub second: String,
    pub name: String,
}

/// The shard of a canonical hex name: its first two digits, the next two,
/// and the whole name.
pub open spec fn shard_of(hex: Seq<char>) -> (Seq<char>, Seq<char>, Seq<char>) {
    (hex.subrange(0, 2), hex.subrange(2, 4), hex)
}

impl ShardPath {
    pub open spec fn parts(&self) -> (Seq<char>, Seq<char>, Seq<char>) {
        (self.first@, self.second@, self.name@)
    }

    /// The shard of a hex name as found in the metadata file, or `None` when
    /// the name is too short to have one.
    pub fn of_hex(hex: &String) -> (r: Option<ShardPath>)
        ensures
            hex@.len() < 4 <==> r is None,
            r matches Some(p) ==> p.parts() == shard_of(hex@),
    {
        let s = hex.as_str();
        if s.unicode_len() < 4 {
            return None;
        }
        let first = s.substring_char(0, 2).to_string();
        let second = s.substring_char(2, 4).to_string();
        Some(ShardPath { first, second, name: hex.clone() })
    }
}

proof fn lemma_hex_slice(b: Seq<u8>, i: int)
    requires
        0 <= i < b.len(),
    ensures
        hex_of(seq![b[i]]) == hex_of(b).subrange(2 * i, 2 * i + 2),
{
    assert(hex_of(seq![b[i]]) =~= hex_of(b).subrange(2 * i, 2 * i + 2));
}

impl FileStoreKey {
    /// The key of a content given as consecutive chunks: the BLAKE2b digest
    /// of all of the chunks' bytes, in order.
    pub fn from_chunks(chunks: &Vec<Vec<u8>>) -> (r: FileStoreKey)
        ensures
            r@ == blake2b_of(concat(chunks@)),
            r@.len() == DIGEST_LEN,
    {
        let mut content: Vec<u8> = Vec::new();
        let mut i: usize = 0;
        while i < chunks.len()
            invariant
                i <= chunks.len(),
                content@ == concat(chunks@.subrange(0, i as int)),
            decreases chunks.len() - i,
        {
            let chunk = &chunks[i];
            let mut j: usize = 0;
            let ghost before = content@;
            while j < chunk.len()
                invariant
                    j <= chunk.len(),
                    content@ == before + chunk@.subrange(0, j as int),
                decreases chunk.len() - j,
            {
                content.push(chunk[j]);
                j = j + 1;
                assert(content@ =~= before + chunk@.subrange(0, j as int));
            }
            assert(chunks@.subrange(0, i + 1).drop_last() =~= chunks@.subrange(0, i as int));
            assert(chunk@.subrange(0, j as int) =~= chunk@);
            i = i + 1;
        }
        assert(chunks@.subrange(0, i as int) =~= chunks@);
        FileStoreKey { hash: blake2b_digest(content.as_slice()) }
    }

    /// The digest bytes.
    pub fn hash_bytes(&self) -> (r: &Vec<u8>)
        ensures
            r@ == self@,
    {
        &self.hash
    }

    /// The canonical textual form of the key: its digest in lowercase
    /// hexadecimal.
    pub fn to_string(&self) -> (r: String)
        ensures
            r@ == hex_of(self@),
    {
        hex_encode(self.hash.as_slice())
    }

    /// Where the file with this key is stored: the first byte's two hex
    /// digits, then the second byte's, then the full hex form.
    pub fn shard_path(&self) -> (r: ShardPath)
        requires
            self@.len() >= 2,
        ensures
            r.parts() == shard_of(hex_of(self@)),
    {
        let first = hex_encode(vec![self.hash[0]].as_slice());
        let second = hex_encode(vec![self.hash[1]].as_slice());
        let name = hex_encode(self.hash.as_slice());
        proof {
            lemma_hex_slice(self@, 0);
            lemma_hex_slice(self@, 1);
        }
        ShardPath { first, second, name }
    }
}

} // verus!
