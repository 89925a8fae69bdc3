//! Fetching a tier: each file's bytes go through a SHA-256 checksum as they
//! arrive, progress is counted over the whole tier, and a file whose checksum
//! does not match its catalog entry fails the download.
//!
//! The network, the files on disk and the staging directory belong to the
//! shell, which feeds every chunk it receives to [`AssetFetch::take_chunk`],
//! writes the chunk only when that succeeds, and asks [`AssetFetch::finish`]
//! whether the file may stay.
use sha2::Digest;
use vstd::prelude::*;
use crate::fetch::tier::{sizes_sum, Asset, Tier};
use crate::text::{ascii_lowered, chars_of, string_of, to_ascii_lowercase};

verus! {

/// SHA-256 of a byte sequence (FIPS 180-4), as the `sha2` crate computes it.
pub uninterp spec fn sha256_of(data: Seq<u8>) -> Seq<u8>;

/// The bytes fed to a running checksum so far.
pub uninterp spec fn fed(c: Checksum) -> Seq<u8>;

/// A running SHA-256 computation (`sha2::Sha256`), fed chunk by chunk.
#[verifier::external_body]
pub struct Checksum {
    hasher: sha2::Sha256,
}

impl Checksum {
    /// `Sha256::new`: nothing fed yet.
    #[verifier::external_body]
    fn start() -> (r: Checksum)
        ensures
            fed(r) == Seq::<u8>::empty(),
    {
        Checksum { hasher: sha2::Sha256::new() }
    }

    /// `Digest::update`: the chunk is appended to what was fed.
    #[verifier::external_body]
    fn feed(&mut self, chunk: &[u8])
        ensures
            fed(*final(self)) == fed(*old(self)) + chunk@,
    {
        self.hasher.update(chunk);
    }

    /// `Digest::finalize`: the 32-byte digest of everything fed.
    #[verifier::external_body]
    fn digest(self) -> (r: Vec<u8>)
        ensures
            r@ == sha256_of(fed(self)),
            r@.len() == 32,
    {
        self.hasher.finalize().to_vec()
    }
}

/// The lowercase hexadecimal digit for a value below sixteen.
pub open spec fn hex_digit(d: nat) -> char {
    if d < 10 {
        (('0' as u32) + d) as char
    } else {
        (('a' as u32) + (d - 10)) as char
    }
}

/// Bytes in lowercase hexadecimal, two digits each, most significant first.
pub open spec fn hex_of(bytes: Seq<u8>) -> Seq<char>
    decreases bytes.len(),
{
    if bytes.len() == 0 {
        Seq::empty()
    } else {
        hex_of(bytes.drop_last()) + seq![hex_digit(bytes.last() as nat / 16), hex_digit(bytes.last() as nat % 16)]
    }
}

fn nibble(d: u8) -> (r: char)
    requires
        d < 16,
    ensures
        r == hex_digit(d as nat),
{
    if d < 10 {
        (('0' as u8) + d) as char
    } else {
        (('a' as u8) + (d - 10)) as char
    }
}

/// Bytes in lowercase hexadecimal (`{:02x}` per byte).
pub fn hex(bytes: &[u8]) -> (r: String)
    ensures
        r@ == hex_of(bytes@),
{
    let mut out: Vec<char> = Vec::new();
    let mut i: usize = 0;
    proof {
        assert(bytes@.subrange(0, 0) =~= Seq::<u8>::empty());
    }
    while i < bytes.len()
        invariant
            i <= bytes@.len(),
            out@ == hex_of(bytes@.subrange(0, i as int)),
        decreases bytes@.len() - i,
    {
        let b = bytes[i];
        out.push(nibble(b / 16));
        out.push(nibble(b % 16));
        proof {
            assert(bytes@.subrange(0, i + 1).drop_last() =~= bytes@.subrange(0, i as int));
        }
        i = i + 1;
    }
    proof {
        assert(bytes@.subrange(0, i as int) =~= bytes@);
    }
    string_of(&out)
}

/// Why a file's download failed on this side of the network.
#[derive(Debug)]
pub enum FetchError {
    /// The user cancelled; the chunk that arrived was not kept.
    Cancelled,
    /// The bytes do not hash to what the catalog lists.
    Mismatch {
        /// The file's name.
        name: String,
        /// The checksum the catalog lists, as written there.
        expected: String,
        /// The checksum of what arrived.
        actual: String,
    },
}

/// One file on its way in.
pub struct AssetFetch {
    /// The file's name.
    pub name: String,
    /// The checksum the catalog lists.
    pub expected: String,
    /// Bytes of the tier's earlier files.
    pub already: u64,
    /// Bytes the whole tier declares.
    pub total: u64,
    /// Bytes of this file received so far.
    pub written: u64,
    /// The checksum of the bytes received so far.
    pub checksum: Checksum,
}

impl AssetFetch {
    /// The bytes received so far, in order.
    pub open spec fn received(&self) -> Seq<u8> {
        fed(self.checksum)
    }

    pub open spec fn wf(&self) -> bool {
        self.written == fed(self.checksum).len()
    }

    /// Starts on a file, after `already` bytes of the tier's earlier files.
    pub fn begin(asset: &Asset, already: u64, total: u64) -> (r: AssetFetch)
        ensures
            r.wf(),
            r.name == asset.name,
            r.expected == asset.sha256,
            r.already == already,
            r.total == total,
            r.written == 0,
            r.received() == Seq::<u8>::empty(),
    {
        AssetFetch {
            name: asset.name.clone(),
            expected: asset.sha256.clone(),
            already,
            total,
            written: 0,
            checksum: Checksum::start(),
        }
    }

    /// A chunk arrived. When the user has cancelled, the chunk is refused and
    /// the download fails; otherwise it joins the checksum and the progress
    /// over the whole tier, `(done, total)`, comes back.
    pub fn take_chunk(&mut self, chunk: &[u8], cancelled: bool) -> (r: Result<(u64, u64), FetchError>)
        requires
            old(self).wf(),
            old(self).already + old(self).written + chunk@.len() <= u64::MAX,
        ensures
            final(self).wf(),
            final(self).name == old(self).name,
            final(self).expected == old(self).expected,
            final(self).already == old(self).already,
            final(self).total == old(self).total,
            cancelled ==> r is Err && r->Err_0 is Cancelled && final(self).received() == old(self).received()
                && final(self).written == old(self).written,
            !cancelled ==> r == Ok::<(u64, u64), FetchError>((
                (old(self).already + old(self).written + chunk@.len()) as u64,
                old(self).total,
            )) && final(self).received() == old(self).received() + chunk@
                && final(self).written == old(self).written + chunk@.len(),
    {
        if cancelled {
            return Err(FetchError::Cancelled);
        }
        self.checksum.feed(chunk);
        self.written = self.written + chunk.len() as u64;
        Ok((self.already + self.written, self.total))
    }

    /// All bytes are in: the file may stay, with its byte count, only when
    /// the checksum of what arrived, in lowercase hexadecimal, equals the
    /// catalog's with its ASCII letters lowered.
    pub fn finish(self) -> (r: Result<u64, FetchError>)
        requires
            self.wf(),
        ensures
            (hex_of(sha256_of(self.received())) == ascii_lowered(self.expected@)) ==> r == Ok::<u64, FetchError>(
                self.written,
            ),
            (hex_of(sha256_of(self.received())) != ascii_lowered(self.expected@)) ==> (r matches Err(
                FetchError::Mismatch { name, expected, actual },
            ) && name == self.name && expected == self.expected && actual@ == hex_of(sha256_of(self.received()))),
    {
        let written = self.written;
        let digest = self.checksum.digest();
        check_digest(self.name, self.expected, digest.as_slice(), written)
    }
}

/// Decides a finished file by its SHA-256 digest: its byte count when the
/// digest in lowercase hexadecimal equals the expected checksum with its ASCII
/// letters lowered, a mismatch naming both otherwise.
pub fn check_digest(name: String, expected: String, digest: &[u8], written: u64) -> (r: Result<u64, FetchError>)
    ensures
        (hex_of(digest@) == ascii_lowered(expected@)) ==> r == Ok::<u64, FetchError>(written),
        (hex_of(digest@) != ascii_lowered(expected@)) ==> (r matches Err(
            FetchError::Mismatch { name: n, expected: e, actual },
        ) && n == name && e == expected && actual@ == hex_of(digest@)),
{
    let actual = hex(digest);
    let wanted = to_ascii_lowercase(expected.as_str());
    let actual_chars = chars_of(actual.as_str());
    if vec_eq(&actual_chars, &wanted) {
        Ok(written)
    } else {
        Err(FetchError::Mismatch { name, expected, actual })
    }
}

/// Two character buffers hold the same characters.
fn vec_eq(a: &Vec<char>, b: &Vec<char>) -> (r: bool)
    ensures
        r == (a@ == b@),
{
    if a.len() != b.len() {
        return false;
    }
    let mut i: usize = 0;
    while i < a.len()
        invariant
            a@.len() == b@.len(),
            i <= a@.len(),
            forall|k: int| 0 <= k < i ==> a@[k] == b@[k],
        decreases a@.len() - i,
    {
        if a[i] != b[i] {
            return false;
        }
        i = i + 1;
    }
    proof {
        assert(a@ =~= b@);
    }
    true
}

/// A tier on its way in: the files one after another, progress counted over
/// all of them.
pub struct TierFetch {
    /// Bytes the tier declares.
    pub total: u64,
    /// Bytes of the files finished so far.
    pub done: u64,
    /// How many files were started.
    pub next: usize,
}

impl TierFetch {
    /// Starts on a tier; its declared sizes must add up within a `u64`.
    pub fn start(tier: &Tier) -> (r: TierFetch)
        requires
            sizes_sum(tier.files@) <= u64::MAX,
        ensures
            r.total == sizes_sum(tier.files@),
            r.done == 0,
            r.next == 0,
    {
        TierFetch { total: tier.total_bytes(), done: 0, next: 0 }
    }

    /// The next file to fetch, counted after the bytes already done; `None`
    /// once every file was started.
    pub fn next_asset(&mut self, tier: &Tier) -> (r: Option<AssetFetch>)
        requires
            old(self).next <= tier.files@.len(),
        ensures
            final(self).total == old(self).total,
            final(self).done == old(self).done,
            final(self).next <= tier.files@.len(),
            old(self).next == tier.files@.len() ==> r is None && final(self).next == old(self).next,
            old(self).next < tier.files@.len() ==> final(self).next == old(self).next + 1 && (r matches Some(f)
                && f.wf() && f.name == tier.files@[old(self).next as int].name
                && f.expected == tier.files@[old(self).next as int].sha256
                && f.already == old(self).done && f.total == old(self).total && f.written == 0
                && f.received() == Seq::<u8>::empty()),
    {
        if self.next == tier.files.len() {
            return None;
        }
        let fetch = AssetFetch::begin(&tier.files[self.next], self.done, self.total);
        self.next = self.next + 1;
        Some(fetch)
    }

    /// A file finished with `written` bytes; the progress over the tier,
    /// `(done, total)`, comes back.
    pub fn asset_done(&mut self, written: u64) -> (r: (u64, u64))
        requires
            old(self).done + written <= u64::MAX,
        ensures
            final(self).done == old(self).done + written,
            final(self).total == old(self).total,
            final(self).next == old(self).next,
            r == (final(self).done, final(self).total),
    {
        self.done = self.done + written;
        (self.done, self.total)
    }
}

/// What a download reports to whoever started it.
#[derive(Debug, Clone)]
pub enum FetchEvent {
    /// Bytes received so far and bytes in all; reported often, callers
    /// throttle.
    Progress { done: u64, total: u64 },
    /// Everything arrived and checked out; the model is in `dir`.
    Done { dir: String },
    /// It did not work out (network, checksum, disk, cancelled); the message
    /// says why. The staging directory is gone and it can be tried again.
    Failed(String),
}

} // verus!
