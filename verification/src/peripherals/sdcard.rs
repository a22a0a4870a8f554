//! SD card emulation over a memory-mapped image file.
//!
//! The card is an array of bytes read and written in 512-byte sectors. The
//! bytes live in a `memmap2::MmapMut` that maps the card image; opening the
//! file and mapping it is done by the caller, which hands the map over.

use vstd::prelude::*;

verus! {

/// The size of one sector in bytes.
pub const SECTOR_SIZE: usize = 512;

/// `memmap2::MmapMut`, the writable map of the card image, declared so that
/// the card can hold it; its bytes are named by `mmap_bytes`.
#[verifier::external_type_specification]
#[verifier::external_body]
pub struct ExMmapMut(memmap2::MmapMut);

/// `std::io::Error`, the error of a failed flush, declared so that it can
/// be carried in `SdError::Io`.
#[verifier::external_type_specification]
#[verifier::external_body]
pub struct ExIoError(std::io::Error);

/// The bytes that a `memmap2::MmapMut` holds: the slice that its `Deref`
/// and `DerefMut` impls expose. Between calls of the wrappers below the
/// mapped file is taken to be changed by nobody else (the condition under
/// which `MmapMut::map_mut` is safe to call).
pub uninterp spec fn mmap_bytes(m: memmap2::MmapMut) -> Seq<u8>;

/// The length of a map (`<MmapMut as Deref>::deref`, then the slice's
/// `len`): claimed to be the number of mapped bytes.
#[verifier::external_body]
fn mmap_len(m: &memmap2::MmapMut) -> (n: usize)
    ensures
        n == mmap_bytes(*m).len(),
{
    m.len()
}

/// Copies the mapped bytes `start..end` into `dst[dst_start..dst_end]`
/// (`<[u8]>::copy_from_slice` from a range of the map's `Deref` slice).
/// Claimed: those bytes of `dst` become the mapped bytes and the rest of
/// `dst` is left as it was. Both ranges are in bounds and equally long, so
/// neither the slicing nor the copy panics.
#[verifier::external_body]
fn mmap_copy_out(m: &memmap2::MmapMut, start: usize, end: usize, dst: &mut [u8], dst_start: usize, dst_end: usize)
    requires
        start <= end <= mmap_bytes(*m).len(),
        dst_start <= dst_end <= old(dst)@.len(),
        end - start == dst_end - dst_start,
    ensures
        final(dst)@ == old(dst)@.subrange(0, dst_start as int) + mmap_bytes(*m).subrange(
            start as int,
            end as int,
        ) + old(dst)@.subrange(dst_end as int, old(dst)@.len() as int),
{
    dst[dst_start..dst_end].copy_from_slice(&m[start..end]);
}

/// Copies `src[src_start..src_end]` into the mapped bytes `start..end`
/// (`<[u8]>::copy_from_slice` into a range of the map's `DerefMut` slice).
/// Claimed: those mapped bytes become the bytes of `src`, the other mapped
/// bytes are left as they were, and the length stays. Both ranges are in
/// bounds and equally long, so neither the slicing nor the copy panics.
#[verifier::external_body]
fn mmap_copy_in(m: &mut memmap2::MmapMut, start: usize, end: usize, src: &[u8], src_start: usize, src_end: usize)
    requires
        start <= end <= mmap_bytes(*old(m)).len(),
        src_start <= src_end <= src@.len(),
        end - start == src_end - src_start,
    ensures
        mmap_bytes(*final(m)) == mmap_bytes(*old(m)).subrange(0, start as int) + src@.subrange(
            src_start as int,
            src_end as int,
        ) + mmap_bytes(*old(m)).subrange(end as int, mmap_bytes(*old(m)).len() as int),
{
    m[start..end].copy_from_slice(&src[src_start..src_end]);
}

/// `MmapMut::flush`: writes outstanding changes of the map to its file.
/// Whether it succeeds depends on the system, so nothing is claimed of the
/// result; the mapped bytes are not changed (the map is borrowed shared).
#[verifier::external_body]
fn mmap_flush(m: &memmap2::MmapMut) -> (r: Result<(), std::io::Error>) {
    m.flush()
}

/// Why an SD card operation failed.
#[derive(Debug)]
pub enum SdError {
    /// A single-sector buffer was not 512 bytes long.
    BufferSize,
    /// A sector to read lies beyond the end of the card.
    ReadBeyondEnd,
    /// A sector to write lies beyond the end of the card.
    WriteBeyondEnd,
    /// A multi-sector buffer is shorter than the sectors asked for.
    BufferTooSmall,
    /// Flushing the image to disk failed.
    Io(std::io::Error),
}

impl SdError {
    /// The error's message.
    pub fn message(&self) -> (s: String)
        ensures
            self is BufferSize ==> s@ == "Buffer must be 512 bytes"@,
            self is ReadBeyondEnd ==> s@ == "Read beyond SD card size"@,
            self is WriteBeyondEnd ==> s@ == "Write beyond SD card size"@,
            self is BufferTooSmall ==> s@ == "Buffer too small"@,
            self is Io ==> s@ == "I/O error"@,
    {
        match self {
            SdError::BufferSize => String::from_str("Buffer must be 512 bytes"),
            SdError::ReadBeyondEnd => String::from_str("Read beyond SD card size"),
            SdError::WriteBeyondEnd => String::from_str("Write beyond SD card size"),
            SdError::BufferTooSmall => String::from_str("Buffer too small"),
            SdError::Io(_) => String::from_str("I/O error"),
        }
    }
}

/// `s` with the bytes from `at` on replaced by `d`.
pub open spec fn overwrite(s: Seq<u8>, at: int, d: Seq<u8>) -> Seq<u8> {
    s.subrange(0, at) + d + s.subrange(at + d.len(), s.len() as int)
}

/// The `n` bytes of `b` from `start` on.
pub open spec fn run_bytes(b: Seq<u8>, start: int, n: int) -> Seq<u8> {
    Seq::new(n as nat, |j: int| b[start + j])
}

/// The number of whole sectors in `len` bytes.
pub open spec fn sectors_in(len: nat) -> nat {
    len / (SECTOR_SIZE as nat)
}

/// How many of the `count` sectors from `lba` on lie within a card of
/// `len` bytes: they are taken in order and the first one past the end
/// stops the run.
pub open spec fn sectors_available(lba: nat, count: nat, len: nat) -> nat {
    let n = sectors_in(len);
    if lba >= n {
        0
    } else if count <= (n - lba) as nat {
        count
    } else {
        (n - lba) as nat
    }
}

/// Whether a multi-sector transfer would step past sector index
/// `u32::MAX`, which the sector number cannot express, before reaching the
/// end of the card.
pub open spec fn transfer_wraps(lba: nat, count: nat, len: nat) -> bool {
    lba + count > 0x1_0000_0000 && len >= 0x1_0000_0000 * (SECTOR_SIZE as nat)
}

/// The size of a card image: an empty file is given the requested size,
/// an existing one keeps its own.
pub open spec fn image_size(existing: nat, requested: nat) -> nat {
    if existing == 0 {
        requested
    } else {
        existing
    }
}

/// The size that a card image file will have (see `image_size`).
pub fn choose_image_size(existing: u64, requested: u64) -> (n: u64)
    ensures
        n == image_size(existing as nat, requested as nat),
{
    if existing == 0 {
        requested
    } else {
        existing
    }
}

/// A memory-mapped SD card.
pub struct SdCard {
    mmap: memmap2::MmapMut,
    path: String,
}

impl SdCard {
    /// The card's bytes.
    pub closed spec fn bytes(&self) -> Seq<u8> {
        mmap_bytes(self.mmap)
    }

    /// The card size in bytes: the length of its image.
    pub open spec fn size(&self) -> nat {
        self.bytes().len()
    }

    /// The path of the card image.
    pub closed spec fn image_path(&self) -> Seq<char> {
        self.path@
    }

    /// A card over the mapped image stored at `path`; its size is the
    /// length of the map.
    pub fn from_mapped(mmap: memmap2::MmapMut, path: String) -> (c: Self)
        ensures
            c.bytes() == mmap_bytes(mmap),
            c.size() == mmap_bytes(mmap).len(),
            c.image_path() == path@,
    {
        SdCard { mmap, path }
    }

    /// Copies sector `sector` into `data` at `at`.
    fn copy_sector_out(&self, sector: u64, data: &mut [u8], at: usize) -> (ok: bool)
        requires
            at + SECTOR_SIZE <= old(data)@.len(),
        ensures
            ok == ((sector + 1) * SECTOR_SIZE <= self.bytes().len()),
            ok ==> final(data)@ == overwrite(
                old(data)@,
                at as int,
                self.bytes().subrange(sector * SECTOR_SIZE, (sector + 1) * SECTOR_SIZE),
            ),
            !ok ==> final(data)@ == old(data)@,
    {
        let len = mmap_len(&self.mmap);
        if sector >= 0x7F_FFFF_FFFF_FFFFu64 {
            assert((sector + 1) * SECTOR_SIZE > usize::MAX) by (nonlinear_arith)
                requires
                    sector >= 0x7F_FFFF_FFFF_FFFFu64,
            ;
            return false;
        }
        assert((sector + 1) * 512 <= u64::MAX) by (nonlinear_arith)
            requires
                sector < 0x7F_FFFF_FFFF_FFFFu64,
        ;
        let end: u64 = (sector + 1) * 512;
        if end > len as u64 {
            return false;
        }
        let off: usize = (sector * 512) as usize;
        let dlen: usize = data.len();
        assert(at + SECTOR_SIZE <= dlen);
        mmap_copy_out(&self.mmap, off, end as usize, data, at, at + SECTOR_SIZE);
        true
    }

    /// Copies `data[at..at + 512]` into sector `sector`.
    fn copy_sector_in(&mut self, sector: u64, data: &[u8], at: usize) -> (ok: bool)
        requires
            at + SECTOR_SIZE <= data@.len(),
        ensures
            ok == ((sector + 1) * SECTOR_SIZE <= old(self).bytes().len()),
            ok ==> final(self).bytes() == overwrite(
                old(self).bytes(),
                sector * SECTOR_SIZE,
                data@.subrange(at as int, at + SECTOR_SIZE),
            ),
            !ok ==> final(self).bytes() == old(self).bytes(),
            final(self).size() == old(self).size(),
            final(self).image_path() == old(self).image_path(),
    {
        let len = mmap_len(&self.mmap);
        if sector >= 0x7F_FFFF_FFFF_FFFFu64 {
            assert((sector + 1) * SECTOR_SIZE > usize::MAX) by (nonlinear_arith)
                requires
                    sector >= 0x7F_FFFF_FFFF_FFFFu64,
            ;
            return false;
        }
        assert((sector + 1) * 512 <= u64::MAX) by (nonlinear_arith)
            requires
                sector < 0x7F_FFFF_FFFF_FFFFu64,
        ;
        let end: u64 = (sector + 1) * 512;
        if end > len as u64 {
            return false;
        }
        let off: usize = (sector * 512) as usize;
        let dlen: usize = data.len();
        assert(at + SECTOR_SIZE <= dlen);
        mmap_copy_in(&mut self.mmap, off, end as usize, data, at, at + SECTOR_SIZE);
        true
    }

    /// Reads sector `lba` into `data`, which must be 512 bytes long.
    pub fn read_sector(&self, lba: u32, data: &mut [u8]) -> (r: Result<(), SdError>)
        ensures
            old(data)@.len() != SECTOR_SIZE ==> (r matches Err(SdError::BufferSize)),
            old(data)@.len() == SECTOR_SIZE && (lba + 1) * SECTOR_SIZE > self.bytes().len() ==> (
            r matches Err(SdError::ReadBeyondEnd)),
            old(data)@.len() == SECTOR_SIZE && (lba + 1) * SECTOR_SIZE <= self.bytes().len() ==> r is Ok,
            final(data)@ == if r is Ok {
                self.bytes().subrange(lba * SECTOR_SIZE, (lba + 1) * SECTOR_SIZE)
            } else {
                old(data)@
            },
    {
        if data.len() != SECTOR_SIZE {
            return Err(SdError::BufferSize);
        }
        if self.copy_sector_out(lba as u64, data, 0) {
            assert(final(data)@ =~= self.bytes().subrange(lba * SECTOR_SIZE, (lba + 1) * SECTOR_SIZE));
            Ok(())
        } else {
            Err(SdError::ReadBeyondEnd)
        }
    }

    /// Writes `data`, which must be 512 bytes long, to sector `lba`.
    pub fn write_sector(&mut self, lba: u32, data: &[u8]) -> (r: Result<(), SdError>)
        ensures
            data@.len() != SECTOR_SIZE ==> (r matches Err(SdError::BufferSize)),
            data@.len() == SECTOR_SIZE && (lba + 1) * SECTOR_SIZE > old(self).bytes().len() ==> (
            r matches Err(SdError::WriteBeyondEnd)),
            data@.len() == SECTOR_SIZE && (lba + 1) * SECTOR_SIZE <= old(self).bytes().len() ==> r is Ok,
            final(self).bytes() == if r is Ok {
                overwrite(old(self).bytes(), lba * SECTOR_SIZE, data@)
            } else {
                old(self).bytes()
            },
            final(self).size() == old(self).size(),
            final(self).image_path() == old(self).image_path(),
    {
        if data.len() != SECTOR_SIZE {
            return Err(SdError::BufferSize);
        }
        if self.copy_sector_in(lba as u64, data, 0) {
            assert(data@.subrange(0, SECTOR_SIZE as int) =~= data@);
            Ok(())
        } else {
            Err(SdError::WriteBeyondEnd)
        }
    }

    /// Reads `count` consecutive sectors from `lba` on into the front of
    /// `data`, which must hold at least `count * 512` bytes. Sectors are
    /// read in order; the first one past the end of the card stops the read
    /// with an error, leaving the sectors before it in `data`.
    pub fn read_sectors(&self, lba: u32, count: u32, data: &mut [u8]) -> (r: Result<(), SdError>)
        requires
            !transfer_wraps(lba as nat, count as nat, self.bytes().len()),
        ensures
            ({
                let avail = sectors_available(lba as nat, count as nat, self.bytes().len());
                if old(data)@.len() < count * SECTOR_SIZE {
                    &&& (r matches Err(SdError::BufferTooSmall))
                    &&& final(data)@ == old(data)@
                } else {
                    &&& final(data)@ == overwrite(
                        old(data)@,
                        0,
                        run_bytes(self.bytes(), lba * SECTOR_SIZE, avail * SECTOR_SIZE),
                    )
                    &&& avail == count ==> r is Ok
                    &&& avail < count ==> (r matches Err(SdError::ReadBeyondEnd))
                }
            }),
    {
        let ghost len = self.bytes().len();
        let ghost n = sectors_in(len);
        let expected: u64 = count as u64 * 512;
        if (data.len() as u64) < expected {
            return Err(SdError::BufferTooSmall);
        }
        let ghost bytes = self.bytes();
        let mut i: u32 = 0;
        while i < count
            invariant
                i <= count,
                count * SECTOR_SIZE <= data@.len(),
                data@.len() == old(data)@.len(),
                bytes == self.bytes(),
                len == bytes.len(),
                n == sectors_in(len),
                i == 0 || lba + i <= n,
                forall|j: int| 0 <= j < i * SECTOR_SIZE ==> #[trigger] data@[j] == bytes[lba * SECTOR_SIZE + j],
                forall|j: int| i * SECTOR_SIZE <= j < data@.len() ==> #[trigger] data@[j] == old(data)@[j],
            decreases count - i,
        {
            let sector: u64 = lba as u64 + i as u64;
            proof {
                lemma_sector_fits(sector as int, len);
                assert(i * SECTOR_SIZE + SECTOR_SIZE <= count * SECTOR_SIZE) by (nonlinear_arith)
                    requires
                        i < count,
                ;
                assert(i * SECTOR_SIZE + SECTOR_SIZE <= data@.len());
            }
            let dlen = data.len();
            assert(i * SECTOR_SIZE <= dlen);
            let at: usize = i as usize * 512;
            let ghost before = data@;
            if !self.copy_sector_out(sector, data, at) {
                proof {
                    assert(sectors_available(lba as nat, count as nat, len) == i);
                    lemma_overwrite_front(old(data)@, data@, bytes, lba * SECTOR_SIZE, i * SECTOR_SIZE);
                }
                return Err(SdError::ReadBeyondEnd);
            }
            proof {
                assert forall|j: int| 0 <= j < (i + 1) * SECTOR_SIZE implies #[trigger] data@[j]
                    == bytes[lba * SECTOR_SIZE + j] by {
                    lemma_mul_split(lba as int, i as int);
                    if j >= i * SECTOR_SIZE {
                        assert(data@[j] == bytes[sector * SECTOR_SIZE + (j - at)]);
                    } else {
                        assert(data@[j] == before[j]);
                    }
                }
                assert forall|j: int| (i + 1) * SECTOR_SIZE <= j < data@.len() implies #[trigger] data@[j]
                    == old(data)@[j] by {
                    assert(data@[j] == before[j]);
                }
            }
            i = i + 1;
        }
        proof {
            assert(sectors_available(lba as nat, count as nat, len) == count);
            lemma_overwrite_front(old(data)@, data@, bytes, lba * SECTOR_SIZE, count * SECTOR_SIZE);
        }
        Ok(())
    }

    /// Writes `count` consecutive sectors from `lba` on, taken from the front
    /// of `data`, which must hold at least `count * 512` bytes. Sectors are
    /// written in order; the first one past the end of the card stops the
    /// write with an error, leaving the sectors before it written.
    pub fn write_sectors(&mut self, lba: u32, count: u32, data: &[u8]) -> (r: Result<(), SdError>)
        requires
            !transfer_wraps(lba as nat, count as nat, old(self).bytes().len()),
        ensures
            ({
                let avail = sectors_available(lba as nat, count as nat, old(self).bytes().len());
                if data@.len() < count * SECTOR_SIZE {
                    &&& (r matches Err(SdError::BufferTooSmall))
                    &&& final(self).bytes() == old(self).bytes()
                } else {
                    &&& avail == 0 ==> final(self).bytes() == old(self).bytes()
                    &&& avail > 0 ==> final(self).bytes() == overwrite(
                        old(self).bytes(),
                        lba * SECTOR_SIZE,
                        run_bytes(data@, 0, avail * SECTOR_SIZE),
                    )
                    &&& avail == count ==> r is Ok
                    &&& avail < count ==> (r matches Err(SdError::WriteBeyondEnd))
                }
            }),
            final(self).size() == old(self).size(),
            final(self).image_path() == old(self).image_path(),
    {
        let ghost len = self.bytes().len();
        let ghost n = sectors_in(len);
        let ghost start = lba * SECTOR_SIZE;
        let expected: u64 = count as u64 * 512;
        if (data.len() as u64) < expected {
            return Err(SdError::BufferTooSmall);
        }
        let ghost bytes = self.bytes();
        let mut i: u32 = 0;
        while i < count
            invariant
                i <= count,
                count * SECTOR_SIZE <= data@.len(),
                bytes == old(self).bytes(),
                len == bytes.len(),
                self.bytes().len() == len,
                n == sectors_in(len),
                start == lba * SECTOR_SIZE,
                i == 0 || lba + i <= n,
                self.size() == old(self).size(),
                self.image_path() == old(self).image_path(),
                forall|j: int| 0 <= j < len && start <= j < start + i * SECTOR_SIZE ==> #[trigger] self.bytes()[j]
                    == data@[j - start],
                forall|j: int| 0 <= j < len && !(start <= j < start + i * SECTOR_SIZE) ==> #[trigger] self.bytes()[j]
                    == bytes[j],
            decreases count - i,
        {
            let sector: u64 = lba as u64 + i as u64;
            proof {
                lemma_sector_fits(sector as int, len);
                assert(i * SECTOR_SIZE + SECTOR_SIZE <= count * SECTOR_SIZE) by (nonlinear_arith)
                    requires
                        i < count,
                ;
                assert(i * SECTOR_SIZE + SECTOR_SIZE <= data@.len());
                lemma_mul_split(lba as int, i as int);
            }
            let dlen = data.len();
            assert(i * SECTOR_SIZE <= dlen);
            let at: usize = i as usize * 512;
            let ghost before = self.bytes();
            if !self.copy_sector_in(sector, data, at) {
                proof {
                    assert(sectors_available(lba as nat, count as nat, len) == i);
                    if i > 0 {
                        lemma_overwrite_at(bytes, self.bytes(), data@, start, i * SECTOR_SIZE);
                    } else {
                        assert(self.bytes() =~= bytes);
                    }
                }
                return Err(SdError::WriteBeyondEnd);
            }
            proof {
                assert forall|j: int| 0 <= j < len && start <= j < start + (i + 1) * SECTOR_SIZE implies #[trigger] self.bytes()[j]
                    == data@[j - start] by {
                    if j >= start + i * SECTOR_SIZE {
                        assert(self.bytes()[j] == data@[at + (j - sector * SECTOR_SIZE)]);
                    } else {
                        assert(self.bytes()[j] == before[j]);
                    }
                }
                assert forall|j: int| 0 <= j < len && !(start <= j < start + (i + 1) * SECTOR_SIZE) implies #[trigger] self.bytes()[j]
                    == bytes[j] by {
                    assert(self.bytes()[j] == before[j]);
                }
            }
            i = i + 1;
        }
        proof {
            assert(sectors_available(lba as nat, count as nat, len) == count);
            if count > 0 {
                lemma_overwrite_at(bytes, self.bytes(), data@, start, count * SECTOR_SIZE);
            } else {
                assert(self.bytes() =~= bytes);
            }
        }
        Ok(())
    }

    /// Writes outstanding changes of the image to disk.
    pub fn flush(&self) -> (r: Result<(), SdError>)
        ensures
            r matches Err(e) ==> e is Io,
    {
        match mmap_flush(&self.mmap) {
            Ok(()) => Ok(()),
            Err(e) => Err(SdError::Io(e)),
        }
    }

    /// The card size in bytes.
    pub fn size_bytes(&self) -> (n: u64)
        ensures
            n == self.size(),
            n == self.bytes().len(),
    {
        mmap_len(&self.mmap) as u64
    }

    /// The card size in whole sectors.
    pub fn size_sectors(&self) -> (n: u64)
        ensures
            n == self.size() / (SECTOR_SIZE as nat),
            n == sectors_in(self.bytes().len()),
    {
        let len = mmap_len(&self.mmap) as u64;
        len / 512
    }

    /// The path of the card image.
    pub fn path(&self) -> (p: &str)
        ensures
            p@ == self.image_path(),
    {
        self.path.as_str()
    }
}

/// Bytes that equal `d` on `start..start + n` and `old` elsewhere are `old`
/// overwritten at `start` with the first `n` bytes of `d`.
proof fn lemma_overwrite_at(old: Seq<u8>, new: Seq<u8>, d: Seq<u8>, start: int, n: int)
    requires
        0 <= start,
        0 <= n <= d.len(),
        start + n <= old.len(),
        new.len() == old.len(),
        forall|j: int| 0 <= j < old.len() && start <= j < start + n ==> #[trigger] new[j] == d[j - start],
        forall|j: int| 0 <= j < old.len() && !(start <= j < start + n) ==> #[trigger] new[j] == old[j],
    ensures
        new == overwrite(old, start, run_bytes(d, 0, n)),
{
    let r = run_bytes(d, 0, n);
    let o = overwrite(old, start, r);
    assert forall|j: int| 0 <= j < new.len() implies new[j] == o[j] by {
        if j < start {
            assert(o[j] == old[j]);
        } else if j < start + n {
            assert(o[j] == r[j - start]);
        } else {
            assert(o[j] == old[j]);
        }
    }
    assert(new =~= o);
}

/// Sector `s` lies within a card of `len` bytes exactly when `s` is below
/// the card's sector count.
proof fn lemma_sector_fits(s: int, len: nat)
    requires
        0 <= s,
    ensures
        ((s + 1) * SECTOR_SIZE <= len) == (s < sectors_in(len)),
{
    assert(((s + 1) * 512 <= len) == (s < len / 512)) by (nonlinear_arith)
        requires
            0 <= s,
    ;
}

/// A buffer whose first `n` bytes are the run of `b` from `start` and whose
/// other bytes are those of `old` is `old` overwritten at its front.
proof fn lemma_overwrite_front(old: Seq<u8>, new: Seq<u8>, b: Seq<u8>, start: int, n: int)
    requires
        0 <= n <= old.len(),
        new.len() == old.len(),
        forall|j: int| 0 <= j < n ==> #[trigger] new[j] == b[start + j],
        forall|j: int| n <= j < new.len() ==> #[trigger] new[j] == old[j],
    ensures
        new == overwrite(old, 0, run_bytes(b, start, n)),
{
    let d = run_bytes(b, start, n);
    let o = overwrite(old, 0, d);
    assert forall|j: int| 0 <= j < new.len() implies new[j] == o[j] by {
        if j < n {
            assert(o[j] == d[j]);
        } else {
            assert(o[j] == old[j]);
        }
    }
    assert(new =~= o);
}

proof fn lemma_mul_split(a: int, i: int)
    ensures
        (a + i) * SECTOR_SIZE == a * SECTOR_SIZE + i * SECTOR_SIZE,
        (a + i + 1) * SECTOR_SIZE == a * SECTOR_SIZE + i * SECTOR_SIZE + SECTOR_SIZE,
        (i + 1) * SECTOR_SIZE == i * SECTOR_SIZE + SECTOR_SIZE,
{
    assert((a + i) * 512 == a * 512 + i * 512) by (nonlinear_arith);
    assert((a + i + 1) * 512 == a * 512 + i * 512 + 512) by (nonlinear_arith);
    assert((i + 1) * 512 == i * 512 + 512) by (nonlinear_arith);
}

/// Reading a sector back after writing it gives the written bytes; the
/// card keeps its length; and every byte outside the written sector is
/// unchanged.
pub proof fn law_sector_read_after_write(b: Seq<u8>, lba: nat, d: Seq<u8>, j: int)
    requires
        d.len() == SECTOR_SIZE,
        (lba + 1) * SECTOR_SIZE <= b.len(),
        0 <= j < b.len(),
        !(lba * SECTOR_SIZE <= j < (lba + 1) * SECTOR_SIZE),
    ensures
        overwrite(b, lba * SECTOR_SIZE, d).subrange(lba * SECTOR_SIZE, (lba + 1) * SECTOR_SIZE) == d,
        overwrite(b, lba * SECTOR_SIZE, d).len() == b.len(),
        overwrite(b, lba * SECTOR_SIZE, d)[j] == b[j],
{
    lemma_mul_split(lba as int, 0);
    let w = overwrite(b, lba * SECTOR_SIZE, d);
    assert(w.subrange(lba * SECTOR_SIZE, (lba + 1) * SECTOR_SIZE) =~= d);
}

/// Reading sectors back after writing them gives the bytes written: a
/// multi-sector read of the run that a multi-sector write stored returns
/// the front of the write's buffer.
pub proof fn law_sectors_read_after_write(b: Seq<u8>, at: int, d: Seq<u8>, n: int)
    requires
        0 <= at,
        0 <= n <= d.len(),
        at + n <= b.len(),
    ensures
        run_bytes(overwrite(b, at, run_bytes(d, 0, n)), at, n) == run_bytes(d, 0, n),
        overwrite(b, at, run_bytes(d, 0, n)).len() == b.len(),
{
    let w = overwrite(b, at, run_bytes(d, 0, n));
    assert forall|j: int| 0 <= j < n implies #[trigger] run_bytes(w, at, n)[j] == run_bytes(d, 0, n)[j] by {
        assert(w[at + j] == run_bytes(d, 0, n)[j]);
    }
    assert(run_bytes(w, at, n) =~= run_bytes(d, 0, n));
}

/// A transfer of `count` sectors moves all of them exactly when the last
/// one ends within the card, and otherwise stops at the card's end.
pub proof fn law_sectors_available(lba: nat, count: nat, len: nat)
    ensures
        sectors_available(lba, count, len) <= count,
        (sectors_available(lba, count, len) == count) == (count == 0 || (lba + count) * SECTOR_SIZE <= len),
        sectors_available(lba, count, len) > 0 ==> (lba + sectors_available(lba, count, len)) * SECTOR_SIZE
            <= len,
{
    let n = sectors_in(len);
    let a = sectors_available(lba, count, len);
    assert(((lba + count) * 512 <= len) == (lba + count <= len / 512)) by (nonlinear_arith);
    assert(((lba + a) * 512 <= len) == (lba + a <= len / 512)) by (nonlinear_arith);
}

/// A card's sector count is its size divided by the sector size, and the
/// sectors fit in it.
pub proof fn law_size_in_sectors(size: nat)
    ensures
        sectors_in(size) * SECTOR_SIZE <= size < (sectors_in(size) + 1) * SECTOR_SIZE,
{
    assert(size / 512 * 512 <= size < (size / 512 + 1) * 512) by (nonlinear_arith);
}

} // verus!
