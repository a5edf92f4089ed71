//! A replayable body buffer: bytes are accumulated in memory until a
//! configured threshold is exceeded, then spilled once and permanently to a
//! uniquely named temporary file. After the write phase, the logical content
//! can be read back any number of times in sequential passes of bounded
//! chunks. The temporary file is removed when the buffer is dropped, on every
//! exit path.

use vstd::prelude::*;

use std::io::{Read, Seek, Write};

verus! {

/// Logical byte content of a spill file.
pub uninterp spec fn temp_contents(f: SpillFile) -> Seq<u8>;

/// Current read/write position of a spill file's handle.
pub uninterp spec fn temp_cursor(f: SpillFile) -> int;

/// A uniquely named temporary file, created by the `tempfile` crate and
/// removed by that crate when the value is dropped. The handle is opaque:
/// everything known about it is stated by the contracts of the methods
/// below, over `temp_contents` and `temp_cursor`.
#[verifier::external_body]
pub struct SpillFile {
    inner: tempfile::NamedTempFile,
}

impl SpillFile {
    /// Relies on `tempfile::NamedTempFile::new`: creates a new, empty,
    /// uniquely named file in the platform's temporary directory, opened
    /// read-write, removed on drop.
    #[verifier::external_body]
    fn create_default() -> (r: Result<SpillFile, String>)
        ensures
            r matches Ok(f) ==> temp_contents(f) == Seq::<u8>::empty() && temp_cursor(f) == 0,
    {
        match tempfile::NamedTempFile::new() {
            Ok(inner) => Ok(SpillFile { inner }),
            Err(e) => Err(e.to_string()),
        }
    }

    /// Relies on `tempfile::NamedTempFile::new_in`: as `new`, but in the
    /// given directory.
    #[verifier::external_body]
    fn create_in(dir: &String) -> (r: Result<SpillFile, String>)
        ensures
            r matches Ok(f) ==> temp_contents(f) == Seq::<u8>::empty() && temp_cursor(f) == 0,
    {
        match tempfile::NamedTempFile::new_in(dir.as_str()) {
            Ok(inner) => Ok(SpillFile { inner }),
            Err(e) => Err(e.to_string()),
        }
    }

    /// Relies on `std::io::Write::write_all` on `tempfile::NamedTempFile`:
    /// on success the whole slice has been written at the current position,
    /// which here is the end of the file. On failure nothing is assumed.
    #[verifier::external_body]
    fn append(&mut self, data: &[u8]) -> (r: Result<(), String>)
        requires
            temp_cursor(*old(self)) == temp_contents(*old(self)).len(),
        ensures
            r matches Ok(()) ==> temp_contents(*final(self)) == temp_contents(*old(self)) + data@
                && temp_cursor(*final(self)) == temp_contents(*final(self)).len(),
    {
        self.inner.write_all(data).map_err(|e| e.to_string())
    }

    /// Relies on `std::io::Seek::rewind` on `tempfile::NamedTempFile`: on
    /// success the position is at the start of the file; the content is not
    /// changed.
    #[verifier::external_body]
    fn rewind_start(&mut self) -> (r: Result<(), String>)
        ensures
            r matches Ok(()) ==> temp_contents(*final(self)) == temp_contents(*old(self))
                && temp_cursor(*final(self)) == 0,
    {
        self.inner.rewind().map_err(|e| e.to_string())
    }

    /// Relies on `std::io::Read::read_exact` on `tempfile::NamedTempFile`:
    /// on success exactly `n` bytes from the current position were read, and
    /// the position advanced past them; a short file gives an error. The
    /// content is not changed by reading.
    #[verifier::external_body]
    fn read_exact_chunk(&mut self, n: usize) -> (r: Result<Vec<u8>, String>)
        ensures
            r matches Ok(v) ==> {
                &&& v@.len() == n as int
                &&& temp_cursor(*old(self)) + n as int <= temp_contents(*old(self)).len()
                &&& v@ == temp_contents(*old(self)).subrange(
                    temp_cursor(*old(self)),
                    temp_cursor(*old(self)) + n as int,
                )
                &&& temp_contents(*final(self)) == temp_contents(*old(self))
                &&& temp_cursor(*final(self)) == temp_cursor(*old(self)) + n as int
            },
    {
        let mut buf = vec![0u8; n];
        match self.inner.read_exact(buf.as_mut_slice()) {
            Ok(()) => Ok(buf),
            Err(e) => Err(e.to_string()),
        }
    }

    /// Relies on `tempfile::NamedTempFile::path`: the location of the
    /// backing file, for observing its lifecycle from outside.
    #[verifier::external_body]
    fn path_string(&self) -> (r: String) {
        self.inner.path().to_string_lossy().into_owned()
    }
}

/// Failure of a buffer operation.
#[derive(Debug)]
pub enum BufferError {
    /// The configured total size limit (or the machine's address space)
    /// would be exceeded; nothing was written.
    Overflow,
    /// A temporary-file operation failed; the buffer is unusable from here
    /// on.
    Io(String),
}

/// Storage for the buffered bytes: in memory until the spill threshold is
/// exceeded, then a temporary file; `Poisoned` after a file operation
/// failed.
enum Buffer {
    Memory(Vec<u8>),
    Spilled(SpillFile),
    Poisoned,
}

/// Builder for `FileBufferingStream`, carrying the spill threshold, the
/// chunk size for read passes, an optional total size limit, and an optional
/// directory for spill files.
pub struct FileBufferingStreamBuilder {
    pub tmp_dir: Option<String>,
    pub threshold: usize,
    pub produce_block_size: usize,
    pub buffer_limit: Option<usize>,
}

impl FileBufferingStreamBuilder {
    /// Defaults: spill and read-chunk sizes of 30 KiB, no total limit, spill
    /// files in the platform's temporary directory.
    pub fn new() -> (r: Self)
        ensures
            r.tmp_dir is None,
            r.threshold == 30720usize,
            r.produce_block_size == 30720usize,
            r.buffer_limit is None,
    {
        Self { tmp_dir: None, threshold: 30720, produce_block_size: 30720, buffer_limit: None }
    }

    /// Directory in which spill files are created.
    pub fn tmp_dir(self, v: String) -> (r: Self)
        ensures
            r.tmp_dir == Some(v),
            r.threshold == self.threshold,
            r.produce_block_size == self.produce_block_size,
            r.buffer_limit == self.buffer_limit,
    {
        Self { tmp_dir: Some(v), ..self }
    }

    /// Number of buffered bytes above which the buffer moves to a file.
    pub fn threshold(self, v: usize) -> (r: Self)
        ensures
            r.threshold == v,
            r.tmp_dir == self.tmp_dir,
            r.produce_block_size == self.produce_block_size,
            r.buffer_limit == self.buffer_limit,
    {
        Self { threshold: v, ..self }
    }

    /// Largest chunk handed out by a read pass.
    pub fn produce_block_size(self, v: usize) -> (r: Self)
        ensures
            r.produce_block_size == v,
            r.tmp_dir == self.tmp_dir,
            r.threshold == self.threshold,
            r.buffer_limit == self.buffer_limit,
    {
        Self { produce_block_size: v, ..self }
    }

    /// Optional bound on the total number of buffered bytes.
    pub fn buffer_limit(self, v: Option<usize>) -> (r: Self)
        ensures
            r.buffer_limit == v,
            r.tmp_dir == self.tmp_dir,
            r.threshold == self.threshold,
            r.produce_block_size == self.produce_block_size,
    {
        Self { buffer_limit: v, ..self }
    }

    /// A fresh, empty buffer with this configuration. A block size of zero
    /// is raised to one so that read passes always make progress.
    pub fn build(&self) -> (r: FileBufferingStream)
        ensures
            r.wf(),
            r@ == Seq::<u8>::empty(),
            !r.spilled(),
            !r.poisoned(),
            !r.reading(),
            r.cursor() == 0,
            r.spill_threshold() == self.threshold,
            r.block_size() == if self.produce_block_size >= 1 {
                self.produce_block_size
            } else {
                1usize
            },
            r.limit() == self.buffer_limit,
    {
        let block = if self.produce_block_size >= 1 {
            self.produce_block_size
        } else {
            1
        };
        FileBufferingStream {
            buffer: Buffer::Memory(Vec::new()),
            buffer_size: 0,
            produce_index: 0,
            read_started: false,
            threshold: self.threshold,
            produce_block_size: block,
            buffer_limit: self.buffer_limit,
            tmp_dir: match &self.tmp_dir {
                Some(d) => Some(d.clone()),
                None => None,
            },
            content: Ghost(Seq::<u8>::empty()),
        }
    }
}

/// A body buffer in its write or read phase. The view `self@` is the
/// logical sequence of bytes written so far, wherever they are stored.
pub struct FileBufferingStream {
    buffer: Buffer,
    buffer_size: usize,
    produce_index: usize,
    read_started: bool,
    threshold: usize,
    produce_block_size: usize,
    buffer_limit: Option<usize>,
    tmp_dir: Option<String>,
    content: Ghost<Seq<u8>>,
}

impl View for FileBufferingStream {
    type V = Seq<u8>;

    closed spec fn view(&self) -> Seq<u8> {
        self.content@
    }
}

impl FileBufferingStream {
    /// The buffer has moved to a temporary file.
    pub closed spec fn spilled(&self) -> bool {
        self.buffer is Spilled
    }

    /// A file operation failed; every further operation fails.
    pub closed spec fn poisoned(&self) -> bool {
        self.buffer is Poisoned
    }

    /// A read pass has begun, so the write phase is over.
    pub closed spec fn reading(&self) -> bool {
        self.read_started
    }

    /// Position of the next read within the logical content.
    pub closed spec fn cursor(&self) -> int {
        self.produce_index as int
    }

    /// Configured spill threshold.
    pub closed spec fn spill_threshold(&self) -> int {
        self.threshold as int
    }

    /// Configured read chunk size.
    pub closed spec fn block_size(&self) -> int {
        self.produce_block_size as int
    }

    /// Configured total size limit.
    pub closed spec fn limit(&self) -> Option<usize> {
        self.buffer_limit
    }

    /// The stored bytes agree with the logical content, the tracked size and
    /// cursor are in range, and in file mode the file handle's position is
    /// where the next operation of the current phase expects it.
    pub closed spec fn wf(&self) -> bool {
        &&& self.buffer_size as int == self.content@.len()
        &&& self.produce_index <= self.buffer_size
        &&& self.produce_block_size >= 1
        &&& (!self.read_started ==> self.produce_index == 0)
        &&& match self.buffer {
            Buffer::Memory(m) => m@ == self.content@,
            Buffer::Spilled(f) => temp_contents(f) == self.content@ && (if self.read_started {
                self.produce_index != 0 ==> temp_cursor(f) == self.produce_index as int
            } else {
                temp_cursor(f) == self.content@.len()
            }),
            Buffer::Poisoned => true,
        }
    }

    /// Number of bytes written so far.
    pub fn len(&self) -> (r: usize)
        requires
            self.wf(),
        ensures
            r as int == self@.len(),
    {
        self.buffer_size
    }

    /// Whether the buffer has spilled to a file.
    pub fn is_spilled(&self) -> (r: bool)
        ensures
            r == self.spilled(),
    {
        match self.buffer {
            Buffer::Spilled(_) => true,
            _ => false,
        }
    }

    /// Location of the backing file, while spilled; for observing the
    /// file's lifecycle from outside.
    pub fn backing_path(&self) -> (r: Option<String>)
        ensures
            r is Some <==> self.spilled(),
    {
        match &self.buffer {
            Buffer::Spilled(f) => Some(f.path_string()),
            _ => None,
        }
    }

    /// Whether `self@ + bytes` stays within the machine and the configured
    /// limit.
    pub open spec fn fits(&self, bytes: Seq<u8>) -> bool {
        &&& self@.len() + bytes.len() <= usize::MAX as int
        &&& match self.limit() {
            Some(l) => self@.len() + bytes.len() <= l as int,
            None => true,
        }
    }

    /// Append `bytes` to the buffered content. Appending spills the buffer
    /// to a temporary file exactly when the new total exceeds the threshold
    /// while still in memory; once spilled it stays spilled. Exceeding the
    /// configured limit fails with `Overflow` and changes nothing; only
    /// file operations can fail with `Io`, which makes the buffer unusable.
    pub fn write_to_buffer(&mut self, bytes: &[u8]) -> (r: Result<(), BufferError>)
        requires
            old(self).wf(),
            !old(self).reading(),
            !old(self).poisoned(),
        ensures
            final(self).wf(),
            !final(self).reading(),
            final(self).cursor() == old(self).cursor(),
            final(self).spill_threshold() == old(self).spill_threshold(),
            final(self).block_size() == old(self).block_size(),
            final(self).limit() == old(self).limit(),
            match r {
                Ok(()) => {
                    &&& old(self).fits(bytes@)
                    &&& final(self)@ == old(self)@ + bytes@
                    &&& !final(self).poisoned()
                    &&& (final(self).spilled() <==> old(self).spilled() || old(self)@.len()
                        + bytes@.len() > old(self).spill_threshold())
                },
                Err(BufferError::Overflow) => {
                    &&& !old(self).fits(bytes@)
                    &&& *final(self) == *old(self)
                },
                Err(BufferError::Io(_)) => {
                    &&& old(self).fits(bytes@)
                    &&& final(self).poisoned()
                    &&& final(self)@ == old(self)@
                },
            },
            !old(self).fits(bytes@) <==> r matches Err(BufferError::Overflow),
            !old(self).spilled() && old(self)@.len() + bytes@.len() <= old(self).spill_threshold()
                && old(self).fits(bytes@) ==> r is Ok,
    {
        let new_size = match self.buffer_size.checked_add(bytes.len()) {
            Some(n) => n,
            None => {
                return Err(BufferError::Overflow);
            },
        };
        match self.buffer_limit {
            Some(limit) => {
                if new_size > limit {
                    return Err(BufferError::Overflow);
                }
            },
            None => {},
        }
        let mut buf = Buffer::Poisoned;
        core::mem::swap(&mut buf, &mut self.buffer);
        match buf {
            Buffer::Memory(mut m) => {
                if self.threshold < m.len() + bytes.len() {
                    let mut f = match &self.tmp_dir {
                        Some(d) => {
                            match SpillFile::create_in(d) {
                                Ok(f) => f,
                                Err(e) => {
                                    return Err(BufferError::Io(e));
                                },
                            }
                        },
                        None => {
                            match SpillFile::create_default() {
                                Ok(f) => f,
                                Err(e) => {
                                    return Err(BufferError::Io(e));
                                },
                            }
                        },
                    };
                    match f.append(m.as_slice()) {
                        Ok(()) => {},
                        Err(e) => {
                            return Err(BufferError::Io(e));
                        },
                    }
                    match f.append(bytes) {
                        Ok(()) => {},
                        Err(e) => {
                            return Err(BufferError::Io(e));
                        },
                    }
                    proof {
                        assert(Seq::<u8>::empty() + m@ + bytes@ =~= m@ + bytes@);
                    }
                    self.buffer = Buffer::Spilled(f);
                } else {
                    let mut tail = vstd::slice::slice_to_vec(bytes);
                    m.append(&mut tail);
                    self.buffer = Buffer::Memory(m);
                }
            },
            Buffer::Spilled(mut f) => {
                match f.append(bytes) {
                    Ok(()) => {},
                    Err(e) => {
                        return Err(BufferError::Io(e));
                    },
                }
                self.buffer = Buffer::Spilled(f);
            },
            Buffer::Poisoned => {
                return Err(BufferError::Io(String::new()));
            },
        }
        self.buffer_size = new_size;
        proof {
            self.content@ = self.content@ + bytes@;
        }
        Ok(())
    }

    /// End of the chunk a read at `cur` hands out.
    pub open spec fn chunk_end(&self, cur: int) -> int {
        if self@.len() - cur <= self.block_size() {
            self@.len() as int
        } else {
            cur + self.block_size()
        }
    }

    /// Hand out the next chunk of the current read pass: up to the
    /// configured block size of bytes starting at the read cursor. At the
    /// end of a pass it returns an empty chunk and resets the cursor to
    /// zero, so the next call starts a fresh pass over the same content.
    pub fn read_from_buffer(&mut self) -> (r: Result<Vec<u8>, BufferError>)
        requires
            old(self).wf(),
            !old(self).poisoned(),
        ensures
            final(self).wf(),
            final(self).reading(),
            final(self)@ == old(self)@,
            r is Ok ==> final(self).spilled() == old(self).spilled(),
            final(self).spill_threshold() == old(self).spill_threshold(),
            final(self).block_size() == old(self).block_size(),
            final(self).limit() == old(self).limit(),
            final(self).cursor() <= final(self)@.len(),
            match r {
                Ok(v) => {
                    &&& !final(self).poisoned()
                    &&& if old(self).cursor() >= old(self)@.len() {
                        v@ == Seq::<u8>::empty() && final(self).cursor() == 0
                    } else {
                        &&& v@.len() >= 1
                        &&& final(self).cursor() == old(self).cursor() + v@.len()
                        &&& v@ == old(self)@.subrange(
                            old(self).cursor(),
                            old(self).cursor() + v@.len(),
                        )
                        &&& final(self).cursor() == old(self).chunk_end(old(self).cursor())
                    }
                },
                Err(BufferError::Io(_)) => final(self).poisoned(),
                Err(BufferError::Overflow) => false,
            },
            !old(self).spilled() ==> r is Ok,
    {
        self.read_started = true;
        let buffer_size = self.buffer_size;
        let current = self.produce_index;
        if buffer_size <= current {
            self.produce_index = 0;
            proof {
                assert(Seq::<u8>::empty() =~= Seq::<u8>::empty());
            }
            return Ok(Vec::new());
        }
        let end = if buffer_size - current <= self.produce_block_size {
            buffer_size
        } else {
            current + self.produce_block_size
        };
        let mut buf = Buffer::Poisoned;
        core::mem::swap(&mut buf, &mut self.buffer);
        match buf {
            Buffer::Memory(m) => {
                let chunk = vstd::slice::slice_to_vec(
                    vstd::slice::slice_subrange(m.as_slice(), current, end),
                );
                self.buffer = Buffer::Memory(m);
                self.produce_index = end;
                Ok(chunk)
            },
            Buffer::Spilled(mut f) => {
                if current == 0 {
                    match f.rewind_start() {
                        Ok(()) => {},
                        Err(e) => {
                            return Err(BufferError::Io(e));
                        },
                    }
                }
                match f.read_exact_chunk(end - current) {
                    Ok(v) => {
                        self.buffer = Buffer::Spilled(f);
                        self.produce_index = end;
                        Ok(v)
                    },
                    Err(e) => Err(BufferError::Io(e)),
                }
            },
            Buffer::Poisoned => Err(BufferError::Io(String::new())),
        }
    }
}

/// The chunks a full read pass hands out, starting at `cur`: each is the
/// slice from the cursor to `min(cursor + block, len)`, until the content is
/// exhausted.
pub open spec fn spec_read_pass(content: Seq<u8>, block: int, cur: int) -> Seq<Seq<u8>>
    recommends
        block >= 1,
        0 <= cur,
    decreases content.len() - cur,
        when block >= 1 && 0 <= cur <= content.len()
{
    if cur >= content.len() {
        Seq::<Seq<u8>>::empty()
    } else {
        let end = if content.len() - cur <= block {
            content.len() as int
        } else {
            cur + block
        };
        seq![content.subrange(cur, end)] + spec_read_pass(content, block, end)
    }
}

/// A full read pass delivers exactly the content from the cursor on:
/// concatenating its chunks gives back the buffered bytes. With the cursor
/// at zero this is the whole content, so a replayed body is byte-identical
/// to what was written, and since the chunks are a function of the content
/// alone, any two full passes over the same buffer deliver identical byte
/// sequences.
pub proof fn lemma_read_pass_delivers_content(content: Seq<u8>, block: int, cur: int)
    requires
        block >= 1,
        0 <= cur <= content.len(),
    ensures
        spec_read_pass(content, block, cur).flatten() == content.skip(cur),
    decreases content.len() - cur,
{
    if cur >= content.len() {
        assert(spec_read_pass(content, block, cur).flatten() =~= Seq::<u8>::empty());
        assert(content.skip(cur) =~= Seq::<u8>::empty());
    } else {
        let end = if content.len() - cur <= block {
            content.len() as int
        } else {
            cur + block
        };
        lemma_read_pass_delivers_content(content, block, end);
        let head = content.subrange(cur, end);
        let rest = spec_read_pass(content, block, end);
        let chunks = spec_read_pass(content, block, cur);
        assert(chunks == seq![head] + rest);
        assert(chunks.len() >= 1);
        assert(chunks.first() == head);
        assert(chunks.drop_first() =~= rest);
        assert(chunks.flatten() == head + rest.flatten());
        assert(head + content.skip(end) =~= content.skip(cur));
    }
}

} // verus!
