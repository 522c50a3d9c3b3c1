//! Bounded newline-delimited JSON record framing.
//!
//! Each record is one complete serialized object, checked against a byte
//! ceiling before anything is written, then newline-terminated and flushed.

use vstd::prelude::*;
use vstd::string::StringExecFns;

use crate::error::{DiscoveryError, DiscoveryResult};
use crate::text::{decimal, u64_decimal};

verus! {

/// Default maximum serialized bytes for one NDJSON object, excluding newline.
pub const DEFAULT_MAX_NDJSON_RECORD_BYTES: usize = 1048576;

/// A writer that emits one bounded complete JSON object per flushed line.
pub struct NdjsonWriter<W> {
    writer: W,
    max_record_bytes: usize,
    /// The bytes handed to the writer's `write_all` that it accepted, in order.
    delivered: Ghost<Seq<u8>>,
}

impl<W> NdjsonWriter<W> {
    /// The wrapped writer.
    pub closed spec fn spec_writer(&self) -> W {
        self.writer
    }

    /// The serialized-record ceiling.
    pub closed spec fn spec_max_record_bytes(&self) -> usize {
        self.max_record_bytes
    }

    /// The bytes this writer handed to the wrapped writer and that the
    /// wrapped writer accepted whole, in order.
    pub closed spec fn spec_delivered(&self) -> Seq<u8> {
        self.delivered@
    }

    /// Creates a writer with the one-mebibyte default record ceiling.
    ///
    /// # Errors
    ///
    /// Returns invalid input only if the compiled default ceiling is zero.
    pub fn new(writer: W) -> (r: DiscoveryResult<Self>)
        ensures
            r matches Ok(w) && w.spec_writer() == writer && w.spec_max_record_bytes()
                == DEFAULT_MAX_NDJSON_RECORD_BYTES && w.spec_delivered() == Seq::<u8>::empty(),
    {
        Self::with_max_record_bytes(writer, DEFAULT_MAX_NDJSON_RECORD_BYTES)
    }

    /// Creates a writer with an explicit serialized-record ceiling.
    ///
    /// # Errors
    ///
    /// Returns [`DiscoveryError::InvalidInput`] when `max_record_bytes` is zero.
    pub fn with_max_record_bytes(writer: W, max_record_bytes: usize) -> (r: DiscoveryResult<Self>)
        ensures
            max_record_bytes == 0 ==> (r matches Err(DiscoveryError::InvalidInput(m)) && m@
                == "NDJSON record limit must be greater than zero"@),
            max_record_bytes > 0 ==> (r matches Ok(w) && w.spec_writer() == writer
                && w.spec_max_record_bytes() == max_record_bytes && w.spec_delivered() == Seq::<u8>::empty()),
    {
        if max_record_bytes == 0 {
            return Err(
                DiscoveryError::InvalidInput(
                    String::from_str("NDJSON record limit must be greater than zero"),
                ),
            );
        }
        Ok(NdjsonWriter { writer, max_record_bytes, delivered: Ghost(Seq::empty()) })
    }

    /// Returns the wrapped writer after all desired records have been emitted.
    pub fn into_inner(self) -> (w: W)
        ensures
            w == self.spec_writer(),
    {
        self.writer
    }
}

/// Writes all of `bytes` to `writer` (`std::io::Write::write_all`).
/// Nothing is stated of the outcome, which depends on the writer.
#[verifier::external_body]
fn write_all_bytes<W: std::io::Write>(writer: &mut W, bytes: &[u8]) -> std::io::Result<()> {
    writer.write_all(bytes)
}

/// Flushes `writer` (`std::io::Write::flush`). Nothing is stated of the
/// outcome, which depends on the writer.
#[verifier::external_body]
fn flush_writer<W: std::io::Write>(writer: &mut W) -> std::io::Result<()> {
    writer.flush()
}

/// The text of an I/O error (`std::io::Error`'s `Display`). Nothing is
/// stated of the text.
#[verifier::external_body]
pub(crate) fn io_error_text(error: &std::io::Error) -> String {
    error.to_string()
}

/// The message of a record that exceeds the ceiling.
pub open spec fn oversize_message(len: nat, max: nat) -> Seq<char> {
    "NDJSON record bytes "@ + decimal(len) + " exceed limit "@ + decimal(max)
}

/// One NDJSON line: the record's bytes followed by a newline.
pub fn record_line(record: &[u8]) -> (r: Vec<u8>)
    ensures
        r@ == record@.push(10u8),
{
    let mut line: Vec<u8> = Vec::new();
    let mut i: usize = 0;
    while i < record.len()
        invariant
            i <= record@.len(),
            line@ == record@.take(i as int),
        decreases record@.len() - i,
    {
        line.push(record[i]);
        i += 1;
        assert(line@ =~= record@.take(i as int));
    }
    assert(line@ =~= record@);
    line.push(10u8);
    line
}

impl<W: std::io::Write> NdjsonWriter<W> {
    /// Bounds, writes, newline-terminates, and flushes one serialized record.
    ///
    /// The size limit is checked before any bytes are written; a record within
    /// it is handed to the writer as one line ([`record_line`]), then flushed.
    /// On success that line follows what was delivered before, so after a
    /// series of calls the writer has been handed exactly the lines of the
    /// successful ones, in order (and, after an I/O failure, possibly part
    /// of that line).
    ///
    /// # Errors
    ///
    /// Returns [`DiscoveryError::LimitExceeded`] before writing when the record
    /// exceeds the ceiling, or [`DiscoveryError::Io`] when writing or flushing
    /// fails.
    pub fn write_record(&mut self, record: &[u8]) -> (r: DiscoveryResult<()>)
        ensures
            final(self).spec_max_record_bytes() == old(self).spec_max_record_bytes(),
            record@.len() > old(self).spec_max_record_bytes() ==> (r matches Err(
                DiscoveryError::LimitExceeded(m),
            ) && m@ == oversize_message(record@.len(), old(self).spec_max_record_bytes() as nat)
                && final(self).spec_writer() == old(self).spec_writer()),
            record@.len() <= old(self).spec_max_record_bytes() ==> !(r matches Err(
                DiscoveryError::LimitExceeded(_),
            )),
            r matches Err(e) ==> (e is LimitExceeded || e is Io),
            r is Ok ==> final(self).spec_delivered() == old(self).spec_delivered() + record@.push(10u8),
            r matches Err(DiscoveryError::LimitExceeded(_)) ==> final(self).spec_delivered() == old(
                self,
            ).spec_delivered(),
            r matches Err(DiscoveryError::Io(_)) ==> (final(self).spec_delivered() == old(self).spec_delivered()
                || final(self).spec_delivered() == old(self).spec_delivered() + record@.push(10u8)),
    {
        if record.len() > self.max_record_bytes {
            let mut m = String::from_str("NDJSON record bytes ");
            let a = u64_decimal(record.len() as u64);
            m.append(a.as_str());
            m.append(" exceed limit ");
            let b = u64_decimal(self.max_record_bytes as u64);
            m.append(b.as_str());
            return Err(DiscoveryError::LimitExceeded(m));
        }
        let line = record_line(record);
        if let Err(e) = write_all_bytes(&mut self.writer, line.as_slice()) {
            return Err(DiscoveryError::Io(io_error_text(&e)));
        }
        proof {
            self.delivered@ = self.delivered@ + line@;
        }
        if let Err(e) = flush_writer(&mut self.writer) {
            return Err(DiscoveryError::Io(io_error_text(&e)));
        }
        Ok(())
    }
}

} // verus!
