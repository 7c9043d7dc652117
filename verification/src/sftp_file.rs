//! The local state of a remote file: where reads and writes happen, how a
//! file is opened, and how long each request is.

use std::io::IoSlice;

use vstd::prelude::*;
use vstd::string::*;

use crate::slices::{io_slice_lens, io_slice_view, take_io_slices, take_plan_spec};

verus! {

/// How a file that is created is opened.
#[derive(Debug, Clone, Copy, PartialEq, Eq, Structural)]
pub enum CreateMode {
    /// Fail if the file exists.
    Excl,
    /// Truncate the file if it exists.
    Trunc,
    /// Open the file as it is if it exists.
    Keep,
}

/// Options and flags which can be used to configure how a file is opened.
#[derive(Debug, Clone, Copy, PartialEq, Eq, Structural)]
pub struct OpenFlags {
    pub read: bool,
    pub write: bool,
    pub append: bool,
    pub truncate: bool,
    pub create: bool,
    pub create_new: bool,
}

/// How `flags` open a file: `None` opens an existing file, `Some(mode)`
/// creates it if needed. `create_new` wins over `create` and `truncate`, and
/// `truncate` only counts when the file may be created.
pub open spec fn create_mode(flags: OpenFlags) -> Option<CreateMode> {
    if flags.create || flags.create_new {
        Some(
            if flags.create_new {
                CreateMode::Excl
            } else if flags.truncate {
                CreateMode::Trunc
            } else {
                CreateMode::Keep
            },
        )
    } else {
        None
    }
}

impl OpenFlags {
    /// No flag set.
    pub fn new() -> (r: Self)
        ensures
            r == (OpenFlags {
                read: false,
                write: false,
                append: false,
                truncate: false,
                create: false,
                create_new: false,
            }),
    {
        OpenFlags {
            read: false,
            write: false,
            append: false,
            truncate: false,
            create: false,
            create_new: false,
        }
    }

    /// Sets read access.
    pub fn read(&mut self, read: bool) -> (r: &mut Self)
        ensures
            *r == (OpenFlags { read, ..*old(self) }),
            *final(self) == *final(r),
    {
        self.read = read;
        self
    }

    /// Sets write access.
    pub fn write(&mut self, write: bool) -> (r: &mut Self)
        ensures
            *r == (OpenFlags { write, ..*old(self) }),
            *final(self) == *final(r),
    {
        self.write = write;
        self
    }

    /// Sets append mode.
    pub fn append(&mut self, append: bool) -> (r: &mut Self)
        ensures
            *r == (OpenFlags { append, ..*old(self) }),
            *final(self) == *final(r),
    {
        self.append = append;
        self
    }

    /// Sets whether an existing file is truncated when it may be created.
    pub fn truncate(&mut self, truncate: bool) -> (r: &mut Self)
        ensures
            *r == (OpenFlags { truncate, ..*old(self) }),
            *final(self) == *final(r),
    {
        self.truncate = truncate;
        self
    }

    /// Sets whether the file is created if it does not exist.
    pub fn create(&mut self, create: bool) -> (r: &mut Self)
        ensures
            *r == (OpenFlags { create, ..*old(self) }),
            *final(self) == *final(r),
    {
        self.create = create;
        self
    }

    /// Sets whether opening fails unless a new file is created.
    pub fn create_new(&mut self, create_new: bool) -> (r: &mut Self)
        ensures
            *r == (OpenFlags { create_new, ..*old(self) }),
            *final(self) == *final(r),
    {
        self.create_new = create_new;
        self
    }

    /// How these flags open a file.
    pub fn create_mode(&self) -> (r: Option<CreateMode>)
        ensures
            r == create_mode(*self),
    {
        if self.create || self.create_new {
            Some(
                if self.create_new {
                    CreateMode::Excl
                } else if self.truncate {
                    CreateMode::Trunc
                } else {
                    CreateMode::Keep
                },
            )
        } else {
            None
        }
    }
}

/// Where a seek goes.
#[derive(Debug, Clone, Copy, PartialEq, Eq, Structural)]
pub enum SeekPos {
    Start(u64),
    End(i64),
    Current(i64),
}

/// Why a seek fails.
#[derive(Debug, Clone, Copy, PartialEq, Eq, Structural)]
pub enum SeekError {
    /// Seeking from the end is unsupported.
    FromEnd,
    /// The offset would pass `u64::MAX`.
    Overflow,
    /// The offset would go below 0.
    Underflow,
}

/// The offset after seeking to `pos` from `offset`: `Start` sets it,
/// `Current` moves it, `End` is refused, and so is any move out of `u64`.
pub open spec fn seek_spec(offset: u64, pos: SeekPos) -> Result<u64, SeekError> {
    match pos {
        SeekPos::Start(p) => Ok(p),
        SeekPos::End(_) => Err(SeekError::FromEnd),
        SeekPos::Current(n) => {
            let t = offset + n;
            if t < 0 {
                Err(SeekError::Underflow)
            } else if t > u64::MAX {
                Err(SeekError::Overflow)
            } else {
                Ok(t as u64)
            }
        },
    }
}

/// The position of a cursor in a remote file opened for reading and/or
/// writing.
#[derive(Debug, Clone, Copy, PartialEq, Eq, Structural)]
pub struct FileCursor {
    pub offset: u64,
    pub is_readable: bool,
    pub is_writable: bool,
}

impl FileCursor {
    /// A cursor at the start of a file opened with `flags`.
    pub fn new(flags: &OpenFlags) -> (r: Self)
        ensures
            r == (FileCursor { offset: 0, is_readable: flags.read, is_writable: flags.write }),
    {
        FileCursor { offset: 0, is_readable: flags.read, is_writable: flags.write }
    }

    /// Moves the cursor to `pos`. On success, returns whether the offset
    /// changed (a read in flight at the old offset must then be dropped); on
    /// failure the cursor does not move. Moving back by `i64::MIN` bytes is
    /// left out: its distance does not fit in `i64`.
    pub fn start_seek(&mut self, pos: SeekPos) -> (r: Result<bool, SeekError>)
        requires
            pos != SeekPos::Current(i64::MIN),
        ensures
            match seek_spec(old(self).offset, pos) {
                Ok(o) => final(self).offset == o && r == Ok::<bool, SeekError>(
                    o != old(self).offset,
                ),
                Err(e) => *final(self) == *old(self) && r == Err::<bool, SeekError>(e),
            },
            final(self).is_readable == old(self).is_readable,
            final(self).is_writable == old(self).is_writable,
    {
        match pos {
            SeekPos::Start(p) => {
                if p == self.offset {
                    return Ok(false);
                }
                self.offset = p;
                Ok(true)
            },
            SeekPos::End(_) => Err(SeekError::FromEnd),
            SeekPos::Current(n) => {
                if n == 0 {
                    Ok(false)
                } else if n > 0 {
                    match self.offset.checked_add(n as u64) {
                        Some(o) => {
                            self.offset = o;
                            Ok(true)
                        },
                        None => Err(SeekError::Overflow),
                    }
                } else {
                    let back = (-n) as u64;
                    match self.offset.checked_sub(back) {
                        Some(o) => {
                            self.offset = o;
                            Ok(true)
                        },
                        None => Err(SeekError::Underflow),
                    }
                }
            },
        }
    }
}

/// What a read or a write does first.
#[derive(Debug, Clone, Copy, PartialEq, Eq, Structural)]
pub enum IoStart {
    /// The file was not opened for it.
    NotPermitted,
    /// No byte is asked for: it is done at once.
    Nothing,
    /// A request for this many bytes is sent.
    Request(u32),
}

/// The smaller of `len` and `max`.
pub open spec fn capped_len(len: usize, max: u32) -> u32 {
    if len < max {
        len as u32
    } else {
        max
    }
}

/// The first step of a read of up to `remaining` bytes from a file that is
/// readable or not: refused, nothing, or a request of at most `max_read_len`.
pub open spec fn read_start(readable: bool, remaining: usize, max_read_len: u32) -> IoStart {
    if !readable {
        IoStart::NotPermitted
    } else if remaining == 0 {
        IoStart::Nothing
    } else {
        IoStart::Request(capped_len(remaining, max_read_len))
    }
}

/// The first step of a write of a buffer of `len` bytes to a file that is
/// writable or not: refused, nothing, or a request of at most `max_write_len`.
pub open spec fn write_start(writable: bool, len: usize, max_write_len: u32) -> IoStart {
    if !writable {
        IoStart::NotPermitted
    } else if len == 0 {
        IoStart::Nothing
    } else {
        IoStart::Request(capped_len(len, max_write_len))
    }
}

/// A read or a write never asks for more than the largest request, nor for
/// more bytes than it was given room or data for, and never for none.
pub proof fn lemma_requests_bounded(flag: bool, len: usize, max: u32)
    requires
        max > 0,
    ensures
        read_start(flag, len, max) matches IoStart::Request(n) ==> 0 < n <= max && n <= len,
        write_start(flag, len, max) matches IoStart::Request(n) ==> 0 < n <= max && n <= len,
{
}

impl FileCursor {
    /// The first step of a read of up to `remaining` bytes.
    pub fn begin_read(&self, remaining: usize, max_read_len: u32) -> (r: IoStart)
        ensures
            r == read_start(self.is_readable, remaining, max_read_len),
    {
        if !self.is_readable {
            IoStart::NotPermitted
        } else if remaining == 0 {
            IoStart::Nothing
        } else {
            IoStart::Request(write_request_len(remaining, max_read_len))
        }
    }

    /// The first step of a write of a buffer of `len` bytes.
    pub fn begin_write(&self, len: usize, max_write_len: u32) -> (r: IoStart)
        ensures
            r == write_start(self.is_writable, len, max_write_len),
    {
        if !self.is_writable {
            IoStart::NotPermitted
        } else if len == 0 {
            IoStart::Nothing
        } else {
            IoStart::Request(write_request_len(len, max_write_len))
        }
    }

    /// Moves the cursor past `n` bytes that were read or written, as a seek by
    /// `n` from the current offset does.
    pub fn advance(&mut self, n: u32) -> (r: Result<bool, SeekError>)
        ensures
            match seek_spec(old(self).offset, SeekPos::Current(n as i64)) {
                Ok(o) => final(self).offset == o && r == Ok::<bool, SeekError>(
                    o != old(self).offset,
                ),
                Err(e) => *final(self) == *old(self) && r == Err::<bool, SeekError>(e),
            },
            final(self).is_readable == old(self).is_readable,
            final(self).is_writable == old(self).is_writable,
    {
        self.start_seek(SeekPos::Current(n as i64))
    }

    /// Takes in the reply to a read request of `requested` bytes that brought
    /// `got` bytes: as many as were asked for and came are used, and the
    /// cursor moves past them. Returns how many were used.
    pub fn finish_read(&mut self, requested: u32, got: usize) -> (r: Result<usize, SeekError>)
        ensures
            match seek_spec(old(self).offset, SeekPos::Current(capped_len(got, requested) as i64)) {
                Ok(o) => final(self).offset == o && r == Ok::<usize, SeekError>(
                    capped_len(got, requested) as usize,
                ),
                Err(e) => *final(self) == *old(self) && r == Err::<usize, SeekError>(e),
            },
            final(self).is_readable == old(self).is_readable,
            final(self).is_writable == old(self).is_writable,
    {
        let n = write_request_len(got, requested);
        match self.advance(n) {
            Ok(_) => Ok(n as usize),
            Err(e) => Err(e),
        }
    }
}

/// One step of a read or a write, with where its request goes.
#[derive(Debug, Clone, Copy, PartialEq, Eq, Structural)]
pub enum IoStep {
    /// The file was not opened for it.
    NotPermitted,
    /// No byte is asked for: nothing is sent.
    Nothing,
    /// One request for `len` bytes at `offset`.
    Request { offset: u64, len: u32 },
}

/// The step that `start` describes, for a cursor at `offset`.
pub open spec fn step_at(start: IoStart, offset: u64) -> IoStep {
    match start {
        IoStart::NotPermitted => IoStep::NotPermitted,
        IoStart::Nothing => IoStep::Nothing,
        IoStart::Request(n) => IoStep::Request { offset, len: n },
    }
}

impl FileCursor {
    /// The request of a read of up to `remaining` bytes: refused when the
    /// file is not readable, nothing when no byte is asked for, else one
    /// request for the first `min(remaining, max_read_len)` bytes at the
    /// offset. The cursor moves once the reply is in (`finish_read`).
    pub fn read_step(&self, remaining: usize, max_read_len: u32) -> (r: IoStep)
        ensures
            r == step_at(read_start(self.is_readable, remaining, max_read_len), self.offset),
    {
        match self.begin_read(remaining, max_read_len) {
            IoStart::NotPermitted => IoStep::NotPermitted,
            IoStart::Nothing => IoStep::Nothing,
            IoStart::Request(n) => IoStep::Request { offset: self.offset, len: n },
        }
    }

    /// One write of `total` bytes: refused when the file is not writable,
    /// nothing when there is no byte, else one request for the first
    /// `min(total, max_write_len)` bytes at the offset, and the cursor moves
    /// past them. When that would pass `u64::MAX` the request still goes out
    /// but the move fails with `Overflow` and the cursor stays.
    pub fn write_step(&mut self, total: usize, max_write_len: u32) -> (r: (
        IoStep,
        Result<(), SeekError>,
    ))
        ensures
            r.0 == step_at(write_start(old(self).is_writable, total, max_write_len), old(self).offset),
            match r.0 {
                IoStep::Request { offset, len } => if offset + len <= u64::MAX {
                    final(self).offset == offset + len && r.1 == Ok::<(), SeekError>(())
                } else {
                    *final(self) == *old(self) && r.1 == Err::<(), SeekError>(SeekError::Overflow)
                },
                _ => *final(self) == *old(self) && r.1 == Ok::<(), SeekError>(()),
            },
            final(self).is_readable == old(self).is_readable,
            final(self).is_writable == old(self).is_writable,
    {
        match self.begin_write(total, max_write_len) {
            IoStart::NotPermitted => (IoStep::NotPermitted, Ok(())),
            IoStart::Nothing => (IoStep::Nothing, Ok(())),
            IoStart::Request(n) => {
                let offset = self.offset;
                match self.advance(n) {
                    Ok(_) => (IoStep::Request { offset, len: n }, Ok(())),
                    Err(e) => (IoStep::Request { offset, len: n }, Err(e)),
                }
            },
        }
    }
}

impl FileCursor {
    /// One vectored write of the buffers `bufs`: refused when the file is
    /// not writable; nothing when the buffers hold no byte; else one request
    /// at the offset for the whole buffers and the prefix of the next one
    /// that `take_io_slices` picks under `max_write_len`, and the cursor moves
    /// past them (failing with `Overflow`, the cursor staying, when that
    /// would pass `u64::MAX`).
    pub fn write_vectored_step<'a>(&mut self, bufs: &'a [IoSlice<'a>], max_write_len: u32) -> (r: (
        IoStep,
        Option<(&'a [IoSlice<'a>], [IoSlice<'a>; 1])>,
        Result<(), SeekError>,
    ))
        ensures
            !old(self).is_writable ==> r.0 == IoStep::NotPermitted && r.1 is None && r.2 == Ok::<
                (),
                SeekError,
            >(()) && *final(self) == *old(self),
            old(self).is_writable ==> match take_plan_spec(
                io_slice_lens(bufs@),
                max_write_len as usize,
            ) {
                None => r.0 == IoStep::Nothing && r.1 is None && r.2 == Ok::<(), SeekError>(())
                    && *final(self) == *old(self),
                Some(p) => {
                    &&& r.0 == (IoStep::Request { offset: old(self).offset, len: p.n as u32 })
                    &&& r.1 matches Some(t) && t.0@ == bufs@.take(p.end as int) && io_slice_view(
                        t.1@[0],
                    ) == io_slice_view(bufs@[p.rem_index as int]).take(p.rem_len as int)
                    &&& old(self).offset + p.n <= u64::MAX ==> final(self).offset == old(self).offset
                        + p.n && r.2 == Ok::<(), SeekError>(())
                    &&& old(self).offset + p.n > u64::MAX ==> *final(self) == *old(self) && r.2
                        == Err::<(), SeekError>(SeekError::Overflow)
                },
            },
            final(self).is_readable == old(self).is_readable,
            final(self).is_writable == old(self).is_writable,
    {
        if !self.is_writable {
            return (IoStep::NotPermitted, None, Ok(()));
        }
        match take_io_slices(bufs, max_write_len as usize) {
            None => (IoStep::Nothing, None, Ok(())),
            Some((n, whole, rem)) => {
                let offset = self.offset;
                let len = n as u32;
                match self.advance(len) {
                    Ok(_) => (IoStep::Request { offset, len }, Some((whole, rem)), Ok(())),
                    Err(e) => (IoStep::Request { offset, len }, Some((whole, rem)), Err(e)),
                }
            },
        }
    }
}

/// The length of a read request for `n` bytes: at most `max_read_len`.
pub fn read_request_len(n: u32, max_read_len: u32) -> (r: u32)
    ensures
        r == if n < max_read_len {
            n
        } else {
            max_read_len
        },
{
    if n < max_read_len {
        n
    } else {
        max_read_len
    }
}

/// The length of a write request for a buffer of `len` bytes: at most
/// `max_write_len`.
pub fn write_request_len(len: usize, max_write_len: u32) -> (r: u32)
    ensures
        r == if len < max_write_len {
            len as u32
        } else {
            max_write_len
        },
{
    if len < max_write_len as usize {
        len as u32
    } else {
        max_write_len
    }
}

/// How many bytes to reserve when reading a whole file whose size is `len`
/// (when the server tells it): 300 more than the size, to see the end of the
/// file, or `max_read_len` when that does not fit in memory or no size is
/// known.
pub open spec fn read_capacity_spec(len: Option<u64>, max_read_len: u32) -> usize {
    match len {
        Some(l) => {
            let want = if l + 300 > u64::MAX {
                u64::MAX as int
            } else {
                l + 300
            };
            if want <= usize::MAX {
                want as usize
            } else {
                max_read_len as usize
            }
        },
        None => max_read_len as usize,
    }
}

/// How many bytes to reserve when reading a whole file of size `len`.
pub fn read_capacity(len: Option<u64>, max_read_len: u32) -> (r: usize)
    ensures
        r == read_capacity_spec(len, max_read_len),
{
    match len {
        Some(l) => {
            let want = l.saturating_add(300);
            if want <= usize::MAX as u64 {
                want as usize
            } else {
                max_read_len as usize
            }
        },
        None => max_read_len as usize,
    }
}

/// The length of the next read when `cnt` bytes of a whole file are in and
/// `cap` were reserved: what is left of the reserve plus 300, at most
/// `max_read_len`; `max_read_len` once the reserve is used up.
pub open spec fn next_read_len_spec(cnt: usize, cap: usize, max_read_len: u32) -> u32 {
    if cnt <= cap {
        let want = if cap - cnt + 300 > usize::MAX {
            usize::MAX as int
        } else {
            cap - cnt + 300
        };
        if want <= u32::MAX {
            if want < max_read_len {
                want as u32
            } else {
                max_read_len
            }
        } else {
            max_read_len
        }
    } else {
        max_read_len
    }
}

/// The length of the next read of a whole file.
pub fn next_read_len(cnt: usize, cap: usize, max_read_len: u32) -> (r: u32)
    ensures
        r == next_read_len_spec(cnt, cap, max_read_len),
{
    if cnt <= cap {
        let want = (cap - cnt).saturating_add(300);
        if want <= u32::MAX as usize {
            let w = want as u32;
            if w < max_read_len {
                w
            } else {
                max_read_len
            }
        } else {
            max_read_len
        }
    } else {
        max_read_len
    }
}

/// One cached value that can be taken out and put back.
pub struct Cache<T>(Option<T>);

impl<T> Cache<T> {
    /// The value cached, if any.
    pub closed spec fn value(&self) -> Option<T> {
        self.0
    }

    /// A cache holding `value`.
    pub fn new(value: Option<T>) -> (r: Self)
        ensures
            r.value() == value,
    {
        Cache(value)
    }

    /// Takes the value out, leaving the cache empty.
    pub fn take(&mut self) -> (r: Option<T>)
        ensures
            r == old(self).value(),
            final(self).value() is None,
    {
        self.0.take()
    }

    /// Puts `value` in, in place of whatever was there.
    pub fn set(&mut self, value: T)
        ensures
            final(self).value() == Some(value),
    {
        self.0 = Some(value);
    }
}

/// The request id that a writer keeps at hand between two requests; ids
/// beyond the one kept go back to a shared cache.
pub struct CachedId<T> {
    id: Option<T>,
}

impl<T> CachedId<T> {
    /// The id kept, if any.
    pub closed spec fn kept(&self) -> Option<T> {
        self.id
    }

    /// A writer that keeps no id yet.
    pub fn new() -> (r: Self)
        ensures
            r.kept() is None,
    {
        CachedId { id: None }
    }

    /// Takes the id kept, if any; when there is none the caller takes one
    /// from the shared cache or makes a new one.
    pub fn get_id_mut(&mut self) -> (r: Option<T>)
        ensures
            r == old(self).kept(),
            final(self).kept() is None,
    {
        self.id.take()
    }

    /// Takes back an id whose reply came in: it is kept when no id is, else
    /// it is returned, to go back to the shared cache.
    pub fn cache_id_mut(&mut self, id: T) -> (r: Option<T>)
        ensures
            old(self).kept() is None ==> final(self).kept() == Some(id) && r is None,
            old(self).kept() is Some ==> final(self).kept() == old(self).kept() && r == Some(id),
    {
        if self.id.is_none() {
            self.id = Some(id);
            None
        } else {
            Some(id)
        }
    }
}

/// `path` as the remote server reads it from the working directory `cwd`:
/// as it is when it is absolute or `cwd` is empty (the server's own default
/// directory), else joined to `cwd` with one `/` between them.
pub open spec fn concat_path_spec(cwd: Seq<char>, path: Seq<char>) -> Seq<char> {
    if (path.len() > 0 && path[0] == '/') || cwd.len() == 0 {
        path
    } else if cwd.last() == '/' {
        cwd + path
    } else {
        cwd + seq!['/'] + path
    }
}

/// A path that does not start with `/` is read from a non-empty working
/// directory: the result is `cwd`, one `/` unless `cwd` already ends with
/// one, then the whole of `path`, whatever `/` it holds further on. A path
/// that starts with `/`, or an empty `cwd`, leaves the path as it is.
pub proof fn lemma_concat_path_joins(cwd: Seq<char>, path: Seq<char>)
    ensures
        (path.len() > 0 && path[0] == '/') || cwd.len() == 0 ==> concat_path_spec(cwd, path)
            == path,
        !(path.len() > 0 && path[0] == '/') && cwd.len() > 0 ==> {
            let r = concat_path_spec(cwd, path);
            let sep: int = if cwd[cwd.len() - 1] == '/' {
                0
            } else {
                1
            };
            &&& r.len() == cwd.len() + sep + path.len()
            &&& r.take(cwd.len() as int) == cwd
            &&& r.skip(cwd.len() + sep) == path
            &&& sep == 1 ==> r[cwd.len() as int] == '/'
        },
{
    if !(path.len() > 0 && path[0] == '/') && cwd.len() > 0 {
        let r = concat_path_spec(cwd, path);
        if cwd[cwd.len() - 1] == '/' {
            assert(r =~= cwd + path);
            assert(r.take(cwd.len() as int) =~= cwd);
            assert(r.skip(cwd.len() as int) =~= path);
        } else {
            assert(r =~= cwd + seq!['/'] + path);
            assert(r.take(cwd.len() as int) =~= cwd);
            assert(r.skip(cwd.len() as int + 1) =~= path);
        }
    }
}

/// `path` as the remote server reads it from the working directory `cwd`.
pub fn concat_path_if_needed(cwd: &str, path: &str) -> (r: String)
    ensures
        r@ == concat_path_spec(cwd@, path@),
{
    let plen = path.unicode_len();
    let clen = cwd.unicode_len();
    if (plen > 0 && path.get_char(0) == '/') || clen == 0 {
        return String::from_str(path);
    }
    let mut r = String::from_str(cwd);
    if cwd.get_char(clen - 1) != '/' {
        crate::decimal::push_char(&mut r, '/');
        assert(cwd@.push('/') =~= cwd@ + seq!['/']);
    }
    r.append(path);
    r
}

/// Seeking from the start lands where it says: `Start(p)` always succeeds
/// and leaves the offset at `p`.
pub proof fn lemma_seek_start(offset: u64, p: u64)
    ensures
        seek_spec(offset, SeekPos::Start(p)) == Ok::<u64, SeekError>(p),
{
}

/// A relative seek is undone by the opposite seek: when moving by `n`
/// succeeds, moving back by `-n` returns to the offset it started from.
pub proof fn lemma_seek_current_undo(offset: u64, n: i64)
    requires
        n != i64::MIN,
        seek_spec(offset, SeekPos::Current(n)) is Ok,
    ensures
        seek_spec(
            seek_spec(offset, SeekPos::Current(n))->Ok_0,
            SeekPos::Current((-n) as i64),
        ) == Ok::<u64, SeekError>(offset),
{
}

/// A failed seek never moves the cursor, and a successful one only when the
/// target differs: seeking to the current offset reports no change.
pub proof fn lemma_seek_in_place(offset: u64)
    ensures
        seek_spec(offset, SeekPos::Current(0)) == Ok::<u64, SeekError>(offset),
        seek_spec(offset, SeekPos::Start(offset)) == Ok::<u64, SeekError>(offset),
{
}

} // verus!
