//! Shared-memory buffers: a client's pool of bytes and the buffers that
//! describe regions of it.

use vstd::prelude::*;

verus! {

/// Pixel formats of shared-memory buffers; both use four bytes a pixel.
#[derive(Clone, Copy, Debug, PartialEq, Eq, Structural)]
pub enum ShmFormat {
    Argb8888,
    Xrgb8888,
}

/// A buffer: a region of a pool read as `height` rows of `stride` bytes.
#[derive(Clone, Copy, Debug, PartialEq, Eq, Structural)]
pub struct ShmBuffer {
    pub offset: usize,
    pub width: u32,
    pub height: u32,
    pub stride: u32,
    pub format: ShmFormat,
}

/// Why a buffer's content cannot be read.
#[derive(Clone, Copy, Debug, PartialEq, Eq, Structural)]
pub enum ShmError {
    /// The region runs past the end of the pool.
    OutOfBounds,
}

/// The byte length of a buffer's region.
pub open spec fn region_len(b: ShmBuffer) -> int {
    b.stride as int * b.height as int
}

/// A buffer fits a pool of `size` bytes: `offset + stride * height <= size`.
pub open spec fn well_formed(b: ShmBuffer, size: int) -> bool {
    b.offset as int + region_len(b) <= size
}

/// The bytes of a buffer's region in `data`.
pub open spec fn region(data: Seq<u8>, b: ShmBuffer) -> Seq<u8> {
    data.subrange(b.offset as int, b.offset as int + region_len(b))
}

/// `data` with `bytes` written from `offset` on.
pub open spec fn written(data: Seq<u8>, offset: int, bytes: Seq<u8>) -> Seq<u8> {
    data.subrange(0, offset) + bytes + data.subrange(offset + bytes.len(), data.len() as int)
}

/// What reading a buffer from `data` yields.
pub open spec fn spec_read(data: Seq<u8>, b: ShmBuffer) -> Result<Seq<u8>, ShmError> {
    if b.offset as int + region_len(b) > data.len() {
        Err(ShmError::OutOfBounds)
    } else {
        Ok(region(data, b))
    }
}

/// A client's shared-memory pool.
pub struct ShmPool {
    data: Vec<u8>,
}

impl View for ShmPool {
    type V = Seq<u8>;

    closed spec fn view(&self) -> Seq<u8> {
        self.data@
    }
}

impl ShmPool {
    /// A zero-filled pool of `size` bytes.
    pub fn new(size: usize) -> (r: Self)
        ensures
            r@ == Seq::new(size as nat, |i: int| 0u8),
    {
        let mut data: Vec<u8> = Vec::new();
        let mut i: usize = 0;
        while i < size
            invariant
                i <= size,
                data@ == Seq::new(i as nat, |j: int| 0u8),
            decreases size - i,
        {
            data.push(0);
            i = i + 1;
            assert(data@ =~= Seq::new(i as nat, |j: int| 0u8));
        }
        ShmPool { data }
    }

    /// The pool's size in bytes.
    pub fn size(&self) -> (r: usize)
        ensures
            r == self@.len(),
    {
        self.data.len()
    }

    /// The client writes `bytes` into its mapping from `offset` on. Returns
    /// `false`, changing nothing, when they do not fit.
    pub fn write(&mut self, offset: usize, bytes: &[u8]) -> (r: bool)
        ensures
            r == (offset as int + bytes@.len() <= old(self)@.len()),
            r ==> final(self)@ == written(old(self)@, offset as int, bytes@),
            !r ==> final(self)@ == old(self)@,
    {
        if offset > self.data.len() || bytes.len() > self.data.len() - offset {
            return false;
        }
        let ghost d = self.data@;
        let n = self.data.len();
        let mut i: usize = 0;
        while i < bytes.len()
            invariant
                n == d.len(),
                offset + bytes@.len() <= d.len(),
                i <= bytes@.len(),
                self.data@ == d.subrange(0, offset as int) + bytes@.subrange(0, i as int) + d.subrange(
                    offset + i,
                    d.len() as int,
                ),
            decreases bytes@.len() - i,
        {
            self.data.set(offset + i, bytes[i]);
            i = i + 1;
            assert(self.data@ =~= d.subrange(0, offset as int) + bytes@.subrange(0, i as int) + d.subrange(
                offset + i,
                d.len() as int,
            ));
        }
        assert(bytes@.subrange(0, bytes@.len() as int) =~= bytes@);
        true
    }

    /// The content of a buffer: the bytes of its region, read without
    /// changing the pool.
    pub fn read_buffer(&self, buffer: &ShmBuffer) -> (r: Result<Vec<u8>, ShmError>)
        ensures
            match (r, spec_read(self@, *buffer)) {
                (Ok(v), Ok(s)) => v@ == s,
                (Err(e), Err(f)) => e == f,
                _ => false,
            },
    {
        let stride = buffer.stride as u64;
        let height = buffer.height as u64;
        assert(stride * height <= 0xffff_ffffu64 * 0xffff_ffffu64) by (nonlinear_arith)
            requires stride <= 0xffff_ffffu64, height <= 0xffff_ffffu64;
        let len: u64 = stride * height;
        if buffer.offset > self.data.len() || len > (self.data.len() - buffer.offset) as u64 {
            return Err(ShmError::OutOfBounds);
        }
        let len = len as usize;
        let mut out: Vec<u8> = Vec::new();
        let n = self.data.len();
        let mut i: usize = 0;
        while i < len
            invariant
                n == self.data@.len(),
                buffer.offset + len <= self.data@.len(),
                i <= len,
                out@ == self.data@.subrange(buffer.offset as int, buffer.offset + i),
            decreases len - i,
        {
            out.push(self.data[buffer.offset + i]);
            i = i + 1;
            assert(out@ =~= self.data@.subrange(buffer.offset as int, buffer.offset + i));
        }
        Ok(out)
    }
}

/// For a well-formed buffer, the bytes read back are those last written to
/// its region: a write that covers the region determines what is read.
pub proof fn lemma_read_after_write(data: Seq<u8>, offset: int, bytes: Seq<u8>, b: ShmBuffer)
    requires
        0 <= offset,
        offset + bytes.len() <= data.len(),
        well_formed(b, data.len() as int),
        offset <= b.offset,
        b.offset + region_len(b) <= offset + bytes.len(),
    ensures
        spec_read(written(data, offset, bytes), b) == Ok::<Seq<u8>, ShmError>(
            bytes.subrange(b.offset - offset, b.offset - offset + region_len(b)),
        ),
{
    let w = written(data, offset, bytes);
    assert(w.len() == data.len());
    assert(region(w, b) =~= bytes.subrange(b.offset - offset, b.offset - offset + region_len(b)));
}

/// A write that misses a buffer's region leaves what is read from it as it
/// was.
pub proof fn lemma_read_unaffected_by_disjoint_write(data: Seq<u8>, offset: int, bytes: Seq<u8>, b: ShmBuffer)
    requires
        0 <= offset,
        offset + bytes.len() <= data.len(),
        offset + bytes.len() <= b.offset || b.offset + region_len(b) <= offset,
    ensures
        spec_read(written(data, offset, bytes), b) == spec_read(data, b),
{
    let w = written(data, offset, bytes);
    assert(w.len() == data.len());
    if b.offset + region_len(b) <= data.len() && region_len(b) >= 0 {
        assert(region(w, b) =~= region(data, b));
    }
}

} // verus!
