//! Provenance of accepted Cargo inputs (manifests and lockfile): counts,
//! per-file sources, and the framed input hash.

use vstd::prelude::*;

use crate::hashing::{sha256_hex, spec_sha256_hex};
use crate::inspect::cargo::types::ManifestSource;
use crate::inspect::framing::{compute_project_hash, distinct_paths, framed_hash_of, lemma_framed_hash_order_independent};

verus! {

/// Accumulator for accepted inspection inputs.
pub struct ProvenanceAccumulator {
    entries: Vec<(String, Vec<u8>)>,
    /// Number of accepted files (saturating).
    pub file_count: u64,
    /// Total accepted bytes (saturating).
    pub total_bytes: u64,
}

/// Saturating `u64` addition.
pub open spec fn sat_add(a: u64, b: int) -> u64 {
    if a + b > u64::MAX {
        u64::MAX
    } else {
        (a + b) as u64
    }
}

/// Total content bytes of `(path, content)` entries.
pub open spec fn entries_bytes(e: Seq<(Seq<char>, Seq<u8>)>) -> int
    decreases e.len(),
{
    if e.len() == 0 {
        0
    } else {
        entries_bytes(e.drop_last()) + e.last().1.len()
    }
}

proof fn lemma_entries_bytes_nonneg(e: Seq<(Seq<char>, Seq<u8>)>)
    ensures
        entries_bytes(e) >= 0,
    decreases e.len(),
{
    if e.len() > 0 {
        lemma_entries_bytes_nonneg(e.drop_last());
    }
}

/// `n` capped at `u64::MAX`.
pub open spec fn capped(n: int) -> u64 {
    if n > u64::MAX {
        u64::MAX
    } else {
        n as u64
    }
}

impl ProvenanceAccumulator {
    /// The counters agree with the entries: after `k` accepts the file count
    /// is `k` and the byte count is the sum of the accepted contents' sizes,
    /// each capped at `u64::MAX`.
    pub open spec fn counts_consistent(&self) -> bool {
        &&& self.spec_file_count() == capped(self.spec_entries().len() as int)
        &&& self.spec_total_bytes() == capped(entries_bytes(self.spec_entries()))
    }

    /// The accepted `(path, content)` entries, in acceptance order.
    pub closed spec fn spec_entries(&self) -> Seq<(Seq<char>, Seq<u8>)> {
        self.entries@.map_values(|e: (String, Vec<u8>)| (e.0@, e.1@))
    }

    /// The accepted-file counter.
    pub closed spec fn spec_file_count(&self) -> u64 {
        self.file_count
    }

    /// The accepted-byte counter.
    pub closed spec fn spec_total_bytes(&self) -> u64 {
        self.total_bytes
    }

    /// Number of accepted files.
    pub fn accepted_files(&self) -> (r: u64)
        ensures
            r == self.spec_file_count(),
    {
        self.file_count
    }

    /// Number of accepted bytes.
    pub fn accepted_bytes(&self) -> (r: u64)
        ensures
            r == self.spec_total_bytes(),
    {
        self.total_bytes
    }

    /// An empty accumulator.
    pub fn new() -> (r: Self)
        ensures
            r.spec_entries().len() == 0,
            r.spec_file_count() == 0,
            r.spec_total_bytes() == 0,
            r.counts_consistent(),
    {
        ProvenanceAccumulator { entries: Vec::new(), file_count: 0, total_bytes: 0 }
    }

    /// Records an accepted file by relative path and byte content.
    pub fn accept(&mut self, path: &str, content: &[u8])
        ensures
            final(self).spec_entries() == old(self).spec_entries().push((path@, content@)),
            final(self).spec_file_count() == sat_add(old(self).spec_file_count(), 1),
            final(self).spec_total_bytes() == sat_add(
                old(self).spec_total_bytes(),
                content@.len() as int,
            ),
            old(self).counts_consistent() ==> final(self).counts_consistent(),
    {
        self.file_count = self.file_count.saturating_add(1);
        self.total_bytes = self.total_bytes.saturating_add(content.len() as u64);
        let mut bytes: Vec<u8> = Vec::new();
        let mut i: usize = 0;
        while i < content.len()
            invariant
                i <= content@.len(),
                bytes@ == content@.take(i as int),
            decreases content@.len() - i,
        {
            bytes.push(content[i]);
            assert(content@.take(i + 1) =~= content@.take(i as int).push(content@[i as int]));
            i += 1;
        }
        assert(content@.take(content@.len() as int) =~= content@);
        let ghost prev = self.entries@;
        self.entries.push((String::from_str(path), bytes));
        assert(self.entries@.map_values(|e: (String, Vec<u8>)| (e.0@, e.1@)) =~= prev.map_values(
            |e: (String, Vec<u8>)| (e.0@, e.1@),
        ).push((path@, content@)));
        proof {
            let ne = self.spec_entries();
            assert(ne.drop_last() =~= old(self).spec_entries());
            assert(entries_bytes(ne) == entries_bytes(old(self).spec_entries()) + content@.len());
            lemma_entries_bytes_nonneg(old(self).spec_entries());
        }
    }

    /// The deterministic framed SHA-256 over all accepted files, ordered
    /// stably by relative path.
    pub fn compute_hash(&self) -> (r: String)
        ensures
            r@ == framed_hash_of(self.spec_entries()),
    {
        compute_project_hash(self.entries.as_slice())
    }

    /// The hex SHA-256 of a file's content.
    pub fn content_hash(content: &[u8]) -> (r: String)
        ensures
            r@ == spec_sha256_hex(content@),
    {
        sha256_hex(content)
    }

    /// After accepting files `(p_1, c_1) ... (p_k, c_k)` into a new
    /// accumulator, with no `u64` overflow, the file count is `k` and the
    /// byte count is the sum of the contents' sizes.
    pub proof fn lemma_counts_after_accepts(acc: ProvenanceAccumulator)
        requires
            acc.counts_consistent(),
            acc.spec_entries().len() <= u64::MAX,
            entries_bytes(acc.spec_entries()) <= u64::MAX,
        ensures
            acc.spec_file_count() == acc.spec_entries().len(),
            acc.spec_total_bytes() == entries_bytes(acc.spec_entries()),
    {
        lemma_entries_bytes_nonneg(acc.spec_entries());
    }

    /// The hash of an accumulator does not depend on the order in which its
    /// files were accepted: two accumulators that accepted the same files,
    /// each path once, compute the same hash.
    pub proof fn lemma_hash_independent_of_accept_order(a: ProvenanceAccumulator, b: ProvenanceAccumulator)
        requires
            distinct_paths(a.spec_entries()),
            distinct_paths(b.spec_entries()),
            forall|x: (Seq<char>, Seq<u8>)| a.spec_entries().contains(x) <==> b.spec_entries().contains(x),
        ensures
            framed_hash_of(a.spec_entries()) == framed_hash_of(b.spec_entries()),
    {
        lemma_framed_hash_order_independent(a.spec_entries(), b.spec_entries());
    }

    /// The [`ManifestSource`] of a relative path and its content.
    pub fn make_source(&self, path: &str, content: &[u8], line: Option<usize>) -> (r: ManifestSource)
        ensures
            r@ == (path@, line, spec_sha256_hex(content@), content@.len() as u64),
    {
        ManifestSource {
            path: String::from_str(path),
            line,
            content_hash: Self::content_hash(content),
            byte_count: content.len() as u64,
        }
    }
}

} // verus!
