//! The decisions behind POSIX shared memory objects: which flags an open
//! request carries, which permission bits the metadata reports, and which
//! byte range a mapping covers. The system calls stand around them.

use vstd::prelude::*;

verus! {

/// How a named shared memory object is opened, built like
/// `std::fs::OpenOptions`.
#[derive(Clone, Copy, Debug, PartialEq, Eq, Structural, Hash, PartialOrd, Ord)]
pub struct OpenOptions {
    write: bool,
    truncate: bool,
    create: bool,
    create_new: bool,
    mode: u32,
}

/// The abstract content of `OpenOptions`.
pub struct OpenOptionsView {
    pub write: bool,
    pub truncate: bool,
    pub create: bool,
    pub create_new: bool,
    pub mode: u32,
}

impl View for OpenOptions {
    type V = OpenOptionsView;

    closed spec fn view(&self) -> OpenOptionsView {
        OpenOptionsView {
            write: self.write,
            truncate: self.truncate,
            create: self.create,
            create_new: self.create_new,
            mode: self.mode,
        }
    }
}

/// The access and creation flags of an open request.
#[derive(Clone, Copy, Debug, PartialEq, Eq, Structural, Hash, PartialOrd, Ord)]
pub struct ShmOpenFlags {
    /// Open for reading and writing; otherwise for reading only.
    pub read_write: bool,
    /// Create the object where it does not exist.
    pub create: bool,
    /// Fail where the object exists.
    pub exclusive: bool,
    /// Cut an existing object to length 0.
    pub truncate: bool,
}

impl OpenOptions {
    /// Read-only access, nothing created or truncated, permission bits 0o666.
    pub fn new() -> (res: Self)
        ensures
            res@ == (OpenOptionsView { write: false, truncate: false, create: false, create_new: false, mode: 0o666 }),
    {
        Self { write: false, truncate: false, create: false, create_new: false, mode: 0o666 }
    }

    /// Sets whether the object is opened for writing.
    pub fn write(&mut self, write: bool) -> (res: &mut Self)
        ensures
            *final(self) == *final(res),
            (*res)@ == (OpenOptionsView { write, ..old(self)@ }),
    {
        self.write = write;
        self
    }

    /// Sets whether an existing object is truncated.
    pub fn truncate(&mut self, truncate: bool) -> (res: &mut Self)
        ensures
            *final(self) == *final(res),
            (*res)@ == (OpenOptionsView { truncate, ..old(self)@ }),
    {
        self.truncate = truncate;
        self
    }

    /// Sets whether a missing object is created.
    pub fn create(&mut self, create: bool) -> (res: &mut Self)
        ensures
            *final(self) == *final(res),
            (*res)@ == (OpenOptionsView { create, ..old(self)@ }),
    {
        self.create = create;
        self
    }

    /// Sets whether the object must not exist yet.
    pub fn create_new(&mut self, create_new: bool) -> (res: &mut Self)
        ensures
            *final(self) == *final(res),
            (*res)@ == (OpenOptionsView { create_new, ..old(self)@ }),
    {
        self.create_new = create_new;
        self
    }

    /// Sets the permission bits of a created object.
    pub fn mode(&mut self, mode: u32) -> (res: &mut Self)
        ensures
            *final(self) == *final(res),
            (*res)@ == (OpenOptionsView { mode, ..old(self)@ }),
    {
        self.mode = mode;
        self
    }

    /// The permission bits of a created object.
    pub fn permission_bits(&self) -> (res: u32)
        ensures
            res == self@.mode,
    {
        self.mode
    }

    /// The flags that an open request carries: `create_new` means create
    /// exclusively and overrides `create` and `truncate`.
    pub fn open_flags(&self) -> (res: ShmOpenFlags)
        ensures
            res.read_write == self@.write,
            res.create == (self@.create_new || self@.create),
            res.exclusive == self@.create_new,
            res.truncate == (!self@.create_new && self@.truncate),
    {
        let mut flags = ShmOpenFlags { read_write: self.write, create: false, exclusive: false, truncate: false };
        if self.create_new {
            flags.create = true;
            flags.exclusive = true;
        } else {
            if self.create {
                flags.create = true;
            }
            if self.truncate {
                flags.truncate = true;
            }
        }
        flags
    }
}

impl Default for OpenOptions {
    fn default() -> (res: Self)
        ensures
            res@ == (OpenOptionsView { write: false, truncate: false, create: false, create_new: false, mode: 0o666 }),
    {
        Self::new()
    }
}

/// The size, ownership and permission bits of a shared memory object.
#[derive(Clone, Copy, Debug, Default, PartialEq, Eq, Structural, Hash, PartialOrd, Ord)]
pub struct Metadata {
    pub length: i64,
    pub owner: u32,
    pub group: u32,
    pub mode: u32,
}

impl Metadata {
    /// The metadata that a file status reports: its size, owner and group,
    /// and the permission bits (the lowest 12 bits) of its mode.
    pub fn from_status(length: i64, owner: u32, group: u32, st_mode: u32) -> (res: Self)
        ensures
            res == (Metadata { length, owner, group, mode: st_mode % 0o10000 }),
    {
        let mode = st_mode & 0o7777;
        assert(mode == st_mode % 0o10000) by (bit_vector)
            requires
                mode == st_mode & 0o7777,
        ;
        Metadata { length, owner, group, mode }
    }
}

/// One end of the byte range that a mapping covers.
#[derive(Clone, Copy, Debug, PartialEq, Eq, Structural, Hash, PartialOrd, Ord)]
pub enum RangeBound {
    Included(i64),
    Excluded(i64),
    Unbounded,
}

/// The offset at which a mapping with this start bound begins.
pub open spec fn range_offset(start: RangeBound) -> int {
    match start {
        RangeBound::Included(i) => i as int,
        RangeBound::Excluded(i) => i + 1,
        RangeBound::Unbounded => 0,
    }
}

/// The length of a mapping that begins at `offset` and ends at this bound,
/// where an unbounded end means the end of the object.
pub open spec fn range_length(end: RangeBound, offset: int, object_length: int) -> int {
    match end {
        RangeBound::Included(i) => i + 1 - offset,
        RangeBound::Excluded(i) => i - offset,
        RangeBound::Unbounded => object_length - offset,
    }
}

/// Whether every intermediate value of the range computation fits in an
/// `i64`, as the computation requires.
pub open spec fn range_fits(start: RangeBound, end: RangeBound, object_length: Option<i64>) -> bool {
    let offset = range_offset(start);
    &&& i64::MIN <= offset <= i64::MAX
    &&& (end is Unbounded ==> object_length is Some)
    &&& match end {
        RangeBound::Included(i) => i + 1 <= i64::MAX && i64::MIN <= i + 1 - offset <= i64::MAX,
        RangeBound::Excluded(i) => i64::MIN <= i - offset <= i64::MAX,
        RangeBound::Unbounded => i64::MIN <= object_length.unwrap() - offset <= i64::MAX,
    }
}

/// The offset and length of the byte range `start..end` of an object of
/// `object_length` bytes (needed only where the end is unbounded), or
/// `None` where the length is negative or does not fit in a `usize`.
pub fn range_to_offset_and_length(start: RangeBound, end: RangeBound, object_length: Option<i64>) -> (res: Option<(i64, usize)>)
    requires
        range_fits(start, end, object_length),
    ensures
        ({
            let offset = range_offset(start);
            let length = range_length(end, offset, match object_length { Some(l) => l as int, None => 0 });
            if 0 <= length <= usize::MAX {
                res == Some((offset as i64, length as usize))
            } else {
                res is None
            }
        }),
{
    let offset: i64 = match start {
        RangeBound::Included(i) => i,
        RangeBound::Excluded(i) => i + 1,
        RangeBound::Unbounded => 0,
    };
    let length_i64: i64 = match end {
        RangeBound::Included(i) => i + 1 - offset,
        RangeBound::Excluded(i) => i - offset,
        RangeBound::Unbounded => {
            let length = match object_length {
                Some(l) => l,
                None => 0,
            };
            length - offset
        },
    };
    if length_i64 < 0 || length_i64 as u64 > usize::MAX as u64 {
        None
    } else {
        Some((offset, length_i64 as usize))
    }
}

} // verus!
