use vstd::prelude::*;
use vstd::arithmetic::div_mod::{
    lemma_fundamental_div_mod, lemma_fundamental_div_mod_converse, lemma_mod_bound, lemma_small_mod,
};

verus! {

/// Where a seek is measured from, as in `std::io::SeekFrom`.
#[derive(Debug, Clone, Copy, PartialEq, Eq, Structural)]
pub enum SeekFrom {
    Start(u64),
    End(i64),
    Current(i64),
}

/// Failures of a virtual file.
#[derive(Debug)]
pub enum ReadError {
    /// A seek on a file of size zero: no position can be taken modulo zero.
    EmptyFile,
    /// The backend answered with a byte count other than the one requested.
    ShortResponse,
    /// The backend failed to deliver the range; the message says why.
    Fetch(String),
}

/// The two kinds of byte source behind a virtual file.
pub enum Backend {
    /// Bytes held in memory, sliced on every read.
    LocalSlice { source: Vec<u8> },
    /// A remote resource of known size, fetched by byte range on every read.
    RemoteRange { url: String, size: u64 },
}

/// A random-access file over one backend, with a read/seek cursor.
pub struct WasmFile {
    backend: Backend,
    seek_pos: u64,
}

/// The absolute position that a seek resolves to, taken modulo the file's size.
pub open spec fn seek_target(cursor: int, size: int, pos: SeekFrom) -> int {
    match pos {
        SeekFrom::Start(off) => off as int % size,
        SeekFrom::End(off) => (size + off) % size,
        SeekFrom::Current(off) => (cursor + off) % size,
    }
}

/// Where a read of `len` bytes from `cursor` stops: at most at the end of the file.
pub open spec fn read_end(cursor: int, len: int, size: int) -> int {
    if cursor + len < size {
        cursor + len
    } else {
        size
    }
}

/// Reading `e - s` bytes after seeking to `s` reads exactly the range `[s, e)`, for every
/// range inside the file, whatever the cursor was before.
pub proof fn lemma_read_after_seek(cursor: int, size: int, s: u64, e: int)
    requires
        s <= e <= size,
        s < size,
    ensures
        seek_target(cursor, size, SeekFrom::Start(s)) == s,
        read_end(s as int, e - s, size) == e,
        read_end(s as int, e - s, size) - s == e - s,
{
    lemma_small_mod(s as nat, size as nat);
}

/// Seeking again to the position a seek reached leaves the cursor there; so does repeating
/// a seek from the start or from the end.
pub proof fn lemma_seek_idempotent(cursor: int, size: int, pos: SeekFrom)
    requires
        0 < size <= u64::MAX,
    ensures
        ({
            let p = seek_target(cursor, size, pos);
            &&& 0 <= p < size
            &&& seek_target(p, size, SeekFrom::Start(p as u64)) == p
            &&& !(pos is Current) ==> seek_target(p, size, pos) == p
        }),
{
    let p = seek_target(cursor, size, pos);
    lemma_seek_target_bound(cursor, size, pos);
    lemma_small_mod(p as nat, size as nat);
}

proof fn lemma_seek_target_bound(cursor: int, size: int, pos: SeekFrom)
    requires
        0 < size,
    ensures
        0 <= seek_target(cursor, size, pos) < size,
{
    match pos {
        SeekFrom::Start(off) => lemma_mod_bound(off as int, size),
        SeekFrom::End(off) => lemma_mod_bound(size + off, size),
        SeekFrom::Current(off) => lemma_mod_bound(cursor + off, size),
    }
}

/// A read that asks for more bytes than remain returns fewer than asked, never more than
/// remain, and never reaches past the end of the file.
pub proof fn lemma_read_past_end(cursor: int, len: int, size: int)
    requires
        0 <= cursor <= size,
        0 <= len,
        cursor + len > size,
    ensures
        read_end(cursor, len, size) == size,
        read_end(cursor, len, size) - cursor < len,
        read_end(cursor, len, size) - cursor == size - cursor,
{
}

/// `p` taken modulo `size`, always in `[0, size)`.
fn wrap_position(p: i128, size: u64) -> (r: u64)
    requires
        size > 0,
        -0x1_0000_0000_0000_0000_0000 < p < 0x1_0000_0000_0000_0000_0000,
    ensures
        r as int == p as int % size as int,
{
    let s: u128 = size as u128;
    if p >= 0 {
        let r: u128 = (p as u128) % s;
        assert(r < s);
        r as u64
    } else {
        let m: u128 = (0 - p) as u128;
        let q: u128 = m % s;
        proof {
            lemma_fundamental_div_mod(m as int, s as int);
            let k = m as int / s as int;
            if q == 0 {
                assert(p as int == (-k) * s as int + 0) by (nonlinear_arith)
                    requires m as int == s as int * k + q as int, p as int == -(m as int), q == 0;
                lemma_fundamental_div_mod_converse(p as int, s as int, -k, 0);
            } else {
                assert(p as int == (-k - 1) * s as int + (s - q) as int) by (nonlinear_arith)
                    requires m as int == s as int * k + q as int, p as int == -(m as int);
                lemma_fundamental_div_mod_converse(p as int, s as int, -k - 1, (s - q) as int);
            }
        }
        if q == 0 {
            0
        } else {
            (s - q) as u64
        }
    }
}

impl WasmFile {
    /// The file's size in bytes, fixed when the file is made.
    pub closed spec fn size(&self) -> nat {
        match self.backend {
            Backend::LocalSlice { source } => source@.len(),
            Backend::RemoteRange { size, .. } => size as nat,
        }
    }

    pub closed spec fn cursor(&self) -> nat {
        self.seek_pos as nat
    }

    pub closed spec fn is_local(&self) -> bool {
        self.backend is LocalSlice
    }

    /// The bytes of a local file.
    pub closed spec fn content(&self) -> Seq<u8> {
        match self.backend {
            Backend::LocalSlice { source } => source@,
            Backend::RemoteRange { .. } => Seq::empty(),
        }
    }

    /// The address of a remote file.
    pub closed spec fn location(&self) -> Seq<char> {
        match self.backend {
            Backend::LocalSlice { .. } => Seq::empty(),
            Backend::RemoteRange { url, .. } => url@,
        }
    }

    pub closed spec fn wf(&self) -> bool {
        &&& self.seek_pos <= self.size()
        &&& self.size() <= u64::MAX
    }

    /// A file over bytes held in memory, with the cursor at the start.
    pub fn new(source: Vec<u8>) -> (r: WasmFile)
        requires
            source@.len() <= u64::MAX,
        ensures
            r.wf(),
            r.is_local(),
            r.content() == source@,
            r.size() == source@.len(),
            r.cursor() == 0,
    {
        WasmFile { backend: Backend::LocalSlice { source }, seek_pos: 0 }
    }

    /// A file over a remote resource of `size` bytes, with the cursor at the start.
    pub fn new_remote(url: String, size: u64) -> (r: WasmFile)
        ensures
            r.wf(),
            !r.is_local(),
            r.location() == url@,
            r.size() == size,
            r.cursor() == 0,
    {
        WasmFile { backend: Backend::RemoteRange { url, size }, seek_pos: 0 }
    }

    /// Moves the cursor to the position that `pos` resolves to, modulo the file's size,
    /// and returns it. A file of size zero has no position to move to.
    pub fn seek(&mut self, pos: SeekFrom) -> (r: Result<u64, ReadError>)
        requires
            old(self).wf(),
        ensures
            final(self).wf(),
            final(self).size() == old(self).size(),
            final(self).content() == old(self).content(),
            final(self).is_local() == old(self).is_local(),
            final(self).location() == old(self).location(),
            old(self).size() == 0 <==> r is Err,
            r is Err ==> r->Err_0 is EmptyFile && final(self).cursor() == old(self).cursor(),
            r is Ok ==> r->Ok_0 == final(self).cursor() && final(self).cursor() == seek_target(
                old(self).cursor() as int,
                old(self).size() as int,
                pos,
            ),
    {
        let size = self.file_size();
        if size == 0 {
            return Err(ReadError::EmptyFile);
        }
        let p: i128 = match pos {
            SeekFrom::Start(off) => off as i128,
            SeekFrom::End(off) => size as i128 + off as i128,
            SeekFrom::Current(off) => self.seek_pos as i128 + off as i128,
        };
        self.seek_pos = wrap_position(p, size);
        Ok(self.seek_pos)
    }

    /// The byte range `[start, end)` that a read of `len` bytes asks the backend for.
    pub fn pending_range(&self, len: usize) -> (r: (u64, u64))
        requires
            self.wf(),
        ensures
            r.0 == self.cursor(),
            r.1 == read_end(self.cursor() as int, len as int, self.size() as int),
    {
        let size = self.file_size();
        let end = if (len as u128) < (size - self.seek_pos) as u128 {
            self.seek_pos + len as u64
        } else {
            size
        };
        (self.seek_pos, end)
    }

    /// Completes a read of `buf.len()` bytes with what the backend returned for the pending
    /// range: on success copies the bytes to the front of `buf`, moves the cursor to the end
    /// of the range and returns the count. A backend failure is passed on, and a response of
    /// the wrong length is refused; both leave the file and `buf` as they were.
    pub fn complete_read(&mut self, fetched: Result<Vec<u8>, ReadError>, buf: &mut Vec<u8>) -> (r:
        Result<usize, ReadError>)
        requires
            old(self).wf(),
        ensures
            final(self).wf(),
            final(self).size() == old(self).size(),
            final(self).content() == old(self).content(),
            final(self).is_local() == old(self).is_local(),
            final(self).location() == old(self).location(),
            final(buf)@.len() == old(buf)@.len(),
            ({
                let end = read_end(old(self).cursor() as int, old(buf)@.len() as int, old(self).size() as int);
                let n = end - old(self).cursor();
                &&& (r is Ok <==> fetched is Ok && fetched->Ok_0@.len() == n)
                &&& r is Ok ==> {
                    &&& r->Ok_0 == n
                    &&& final(self).cursor() == end
                    &&& final(buf)@.subrange(0, n) == fetched->Ok_0@
                    &&& final(buf)@.subrange(n, final(buf)@.len() as int) == old(buf)@.subrange(n, old(buf)@.len() as int)
                }
                &&& r is Err ==> {
                    &&& final(self).cursor() == old(self).cursor()
                    &&& final(buf)@ == old(buf)@
                    &&& fetched is Ok ==> r->Err_0 is ShortResponse
                }
            }),
    {
        let (start, end) = self.pending_range(buf.len());
        let n = (end - start) as usize;
        match fetched {
            Err(e) => Err(e),
            Ok(bytes) => {
                if bytes.len() != n {
                    return Err(ReadError::ShortResponse);
                }
                let mut i: usize = 0;
                while i < n
                    invariant
                        0 <= i <= n,
                        n == bytes@.len(),
                        n <= buf@.len(),
                        buf@.len() == old(buf)@.len(),
                        forall|j: int| 0 <= j < i ==> buf@[j] == bytes@[j],
                        forall|j: int| n <= j < buf@.len() ==> buf@[j] == old(buf)@[j],
                    decreases n - i,
                {
                    buf.set(i, bytes[i]);
                    i = i + 1;
                }
                assert(buf@.subrange(0, n as int) =~= bytes@);
                assert(buf@.subrange(n as int, buf@.len() as int) =~= old(buf)@.subrange(n as int, old(buf)@.len() as int));
                self.seek_pos = end;
                Ok(n)
            }
        }
    }

    /// The bytes `[start, end)` of a local file, read in full.
    fn read_slice(&self, start: u64, end: u64) -> (r: Vec<u8>)
        requires
            self.wf(),
            self.is_local(),
            start <= end <= self.size(),
        ensures
            r@ == self.content().subrange(start as int, end as int),
    {
        match &self.backend {
            Backend::LocalSlice { source } => {
                let available: usize = source.len();
                assert(end <= available);
                let e: usize = end as usize;
                let mut out: Vec<u8> = Vec::new();
                let mut i: usize = start as usize;
                assert(e == end && i == start);
                assert(out@ =~= source@.subrange(start as int, i as int));
                while i < e
                    invariant
                        start <= i <= e,
                        e == end,
                        e <= source@.len(),
                        out@ == source@.subrange(start as int, i as int),
                    decreases end - i,
                {
                    out.push(source[i]);
                    i = i + 1;
                    assert(out@ =~= source@.subrange(start as int, i as int));
                }
                out
            },
            Backend::RemoteRange { .. } => Vec::new(),
        }
    }

    /// Reads up to `buf.len()` bytes of a local file from the cursor into the front of
    /// `buf`, stopping at the end of the file, and moves the cursor past them. Returns the
    /// number of bytes read; reading at the end of the file reads none.
    pub fn read(&mut self, buf: &mut Vec<u8>) -> (r: usize)
        requires
            old(self).wf(),
            old(self).is_local(),
        ensures
            final(self).wf(),
            final(self).is_local(),
            final(self).size() == old(self).size(),
            final(self).content() == old(self).content(),
            final(buf)@.len() == old(buf)@.len(),
            ({
                let end = read_end(old(self).cursor() as int, old(buf)@.len() as int, old(self).size() as int);
                &&& r == end - old(self).cursor()
                &&& final(self).cursor() == end
                &&& final(buf)@.subrange(0, r as int) == old(self).content().subrange(old(self).cursor() as int, end)
                &&& final(buf)@.subrange(r as int, final(buf)@.len() as int) == old(buf)@.subrange(r as int, old(buf)@.len() as int)
            }),
    {
        let (start, end) = self.pending_range(buf.len());
        let bytes = self.read_slice(start, end);
        match self.complete_read(Ok(bytes), buf) {
            Ok(n) => n,
            Err(_) => 0,
        }
    }

    pub fn file_size(&self) -> (r: u64)
        requires
            self.wf(),
        ensures
            r == self.size(),
    {
        match &self.backend {
            Backend::LocalSlice { source } => source.len() as u64,
            Backend::RemoteRange { size, .. } => *size,
        }
    }

    pub fn position(&self) -> (r: u64)
        ensures
            r == self.cursor(),
    {
        self.seek_pos
    }

    pub fn is_remote(&self) -> (r: bool)
        ensures
            r == !self.is_local(),
    {
        match &self.backend {
            Backend::LocalSlice { .. } => false,
            Backend::RemoteRange { .. } => true,
        }
    }

    /// The address of a remote file; empty for a local one.
    pub fn url(&self) -> (r: String)
        ensures
            r@ == self.location(),
    {
        match &self.backend {
            Backend::LocalSlice { .. } => String::new(),
            Backend::RemoteRange { url, .. } => url.clone(),
        }
    }
}

} // verus!
