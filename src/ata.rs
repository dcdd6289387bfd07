use vstd::prelude::*;

verus! {

/// Size of a sector in bytes.
pub const SECTOR_SIZE: usize = 512;

/// Size of a sector in 16-bit words.
pub const SECTOR_WORDS: usize = 256;

/// Is `v` a multiple of the sector size?
pub open spec fn aligned(v: int) -> bool {
    v % 512 == 0
}

/// The number of whole sectors that must be transferred to cover
/// `len` bytes starting at byte `pos`.
pub open spec fn required_sectors(pos: int, len: int) -> int {
    let off = pos % 512;
    let rem = len % 512;
    if rem == 0 && len != 0 {
        len / 512 + if off != 0 { 1int } else { 0int }
    } else {
        len / 512 + 1 + if off + rem > 512 { 1int } else { 0int }
    }
}

/// The low byte of a data word.
pub open spec fn low_byte(w: u16) -> u8 {
    (w & 0xff) as u8
}

/// The high byte of a data word.
pub open spec fn high_byte(w: u16) -> u8 {
    (w >> 8) as u8
}

/// The word made of a low and a high byte.
pub open spec fn word_of(lo: u8, hi: u8) -> u16 {
    (lo as u16) | ((hi as u16) << 8)
}

/// Byte `k` of a stream of little-endian data words.
pub open spec fn stream_byte(words: Seq<u16>, k: int) -> u8 {
    if k % 2 == 0 {
        low_byte(words[k / 2])
    } else {
        high_byte(words[k / 2])
    }
}

/// The byte of `w` that stands at stream index `k`.
fn byte_of_word(w: u16, k: usize) -> (r: u8)
    ensures
        r == (if k % 2 == 0 { low_byte(w) } else { high_byte(w) }),
{
    if k % 2 == 0 {
        (#[verifier::truncate] ((w & 0xff) as u8))
    } else {
        (#[verifier::truncate] ((w >> 8) as u8))
    }
}

/// A word built from two bytes gives them back as its low and high byte.
pub proof fn lemma_word_bytes(lo: u8, hi: u8)
    ensures
        low_byte(word_of(lo, hi)) == lo,
        high_byte(word_of(lo, hi)) == hi,
{
    assert(((((lo as u16) | ((hi as u16) << 8)) & 0xff) as u8) == lo) by (bit_vector);
    assert(((((lo as u16) | ((hi as u16) << 8)) >> 8) as u8) == hi) by (bit_vector);
}

/// The sectors counted by `required_sectors` cover the range, and no fewer would.
pub proof fn lemma_required_sectors_cover(pos: int, len: int)
    requires
        pos >= 0,
        len >= 0,
    ensures
        pos % 512 + len <= 512 * required_sectors(pos, len),
        len > 0 ==> 512 * (required_sectors(pos, len) - 1) < pos % 512 + len,
        required_sectors(pos, len) >= 1,
{
    let off = pos % 512;
    let q = len / 512;
    let rem = len % 512;
    assert(len == 512 * q + rem);
    assert(0 <= off < 512);
}

/// The data bytes that a write of `buf` at sector offset `off` sends, for a
/// transfer of `count` sectors: bytes before the range come from the first
/// sector as it was (`start`), bytes after it from the last (`end`).
pub open spec fn merged_byte(
    start: Seq<u16>,
    end: Seq<u16>,
    buf: Seq<u8>,
    off: int,
    count: int,
    k: int,
) -> u8 {
    if k < off {
        stream_byte(start, k)
    } else if k < off + buf.len() {
        buf[k - off]
    } else {
        stream_byte(end, k - 512 * (count - 1))
    }
}

/// The words of an optional sector; none when it is absent.
pub open spec fn sector_seq(s: Option<Vec<u16>>) -> Seq<u16> {
    match s {
        Some(v) => v@,
        None => Seq::empty(),
    }
}

/// Bits of the status register that the driver polls.
#[derive(Clone, Copy, PartialEq, Eq, Structural, Debug)]
pub enum StatusBits {
    Busy,
    RwReady,
}

impl StatusBits {
    pub open spec fn mask(self) -> u8 {
        match self {
            StatusBits::Busy => 0x80u8,
            StatusBits::RwReady => 0x08u8,
        }
    }

    pub fn bit(self) -> (r: u8)
        ensures
            r == self.mask(),
    {
        match self {
            StatusBits::Busy => 0x80,
            StatusBits::RwReady => 0x08,
        }
    }

    /// Is this bit set in the status value `val`?
    pub fn is_set(self, val: u8) -> (r: bool)
        ensures
            r == (val & self.mask() != 0),
    {
        val & self.bit() != 0
    }
}

/// The commands that the driver issues.
#[derive(Clone, Copy, PartialEq, Eq, Structural, Debug)]
pub enum Command {
    Read,
    Write,
    CacheFlush,
}

impl Command {
    pub open spec fn code_spec(self) -> u8 {
        match self {
            Command::Read => 0x20u8,
            Command::Write => 0x30u8,
            Command::CacheFlush => 0xE7u8,
        }
    }

    /// The command byte written to the command register.
    pub fn code(self) -> (r: u8)
        ensures
            r == self.code_spec(),
    {
        match self {
            Command::Read => 0x20,
            Command::Write => 0x30,
            Command::CacheFlush => 0xE7,
        }
    }
}

/// The registers of the command block, in port order.
#[derive(Clone, Copy, PartialEq, Eq, Structural, Debug)]
pub enum IoPort {
    Data,
    ErrFeatures,
    SectorCount,
    LbaLow,
    LbaMid,
    LbaHigh,
    DriveSel,
    Status,
}

impl IoPort {
    pub open spec fn offset_spec(self) -> u16 {
        match self {
            IoPort::Data => 0u16,
            IoPort::ErrFeatures => 1u16,
            IoPort::SectorCount => 2u16,
            IoPort::LbaLow => 3u16,
            IoPort::LbaMid => 4u16,
            IoPort::LbaHigh => 5u16,
            IoPort::DriveSel => 6u16,
            IoPort::Status => 7u16,
        }
    }

    /// The register's offset from the command block base.
    pub fn offset(self) -> (r: u16)
        ensures
            r == self.offset_spec(),
    {
        match self {
            IoPort::Data => 0,
            IoPort::ErrFeatures => 1,
            IoPort::SectorCount => 2,
            IoPort::LbaLow => 3,
            IoPort::LbaMid => 4,
            IoPort::LbaHigh => 5,
            IoPort::DriveSel => 6,
            IoPort::Status => 7,
        }
    }
}

/// The registers of the control block.
#[derive(Clone, Copy, PartialEq, Eq, Structural, Debug)]
pub enum ControlPort {
    Status,
}

/// The status value read back from a floating bus, with no drive attached.
pub const FLOATING_BUS: u8 = 0xFF;

/// A byte to be written to a port.
#[derive(Clone, Copy, PartialEq, Eq, Structural, Debug)]
pub struct PortWrite {
    pub port: u16,
    pub value: u8,
}

/// Port address `base + offset`, as the 16-bit port space wraps.
pub open spec fn port_addr(base: u16, offset: u16) -> u16 {
    ((base as int + offset as int) % 0x10000) as u16
}

/// The drive-select value for `lba`: the secondary drive, LBA addressing,
/// and the top nibble of a 28-bit LBA.
pub open spec fn drive_select(lba: usize) -> u8 {
    (0xF0usize | ((lba >> 24usize) & 0xFusize)) as u8
}

/// The register writes that prepare a transfer of `count` sectors at `lba`.
pub open spec fn setup_writes(io_base: u16, lba: usize, count: u8) -> Seq<PortWrite> {
    seq![
        PortWrite { port: port_addr(io_base, 6), value: drive_select(lba) },
        PortWrite { port: port_addr(io_base, 2), value: count },
        PortWrite { port: port_addr(io_base, 3), value: lba as u8 },
        PortWrite { port: port_addr(io_base, 4), value: (lba >> 8usize) as u8 },
        PortWrite { port: port_addr(io_base, 5), value: (lba >> 16usize) as u8 },
    ]
}

/// Where a seek is measured from.
#[derive(Clone, Copy, PartialEq, Eq, Structural, Debug)]
pub enum SeekFrom {
    Start(u64),
    End(i64),
    Current(i64),
}

/// Why a seek failed.
#[derive(Clone, Copy, PartialEq, Eq, Structural, Debug)]
pub enum SeekError {
    /// The new position would be negative.
    OutOfRange,
    /// The drive has no notion of its end.
    Unsupported,
}

/// Represents an attached ATA PIO drive.
/// The secondary drive of the main ATA controller is used.
pub struct AtaDrive {
    io_base: u16,
    control_base: u16,
    position: usize,
}

impl AtaDrive {
    pub closed spec fn io_base_spec(&self) -> u16 {
        self.io_base
    }

    pub closed spec fn control_base_spec(&self) -> u16 {
        self.control_base
    }

    /// The byte cursor.
    pub closed spec fn pos(&self) -> usize {
        self.position
    }

    /// The current byte cursor.
    pub fn position(&self) -> (r: usize)
        ensures
            r == self.pos(),
    {
        self.position
    }

    /// Create a new drive on the command block at `io_base` and the control
    /// block at `control_base`, given the status register's value read from
    /// it. No drive is attached when the bus floats (`FLOATING_BUS`).
    /// The ports for the primary controller are usually `0x1F0` and `0x3F6`.
    pub fn new(io_base: u16, control_base: u16, status: u8) -> (r: Option<AtaDrive>)
        ensures
            status == FLOATING_BUS <==> r.is_none(),
            r matches Some(d) ==> d.io_base_spec() == io_base && d.control_base_spec()
                == control_base && d.pos() == 0,
    {
        if status == FLOATING_BUS {
            None
        } else {
            Some(AtaDrive { io_base, control_base, position: 0 })
        }
    }

    /// The write that clears the device-control register, done once at
    /// initialization.
    pub fn control_reset(&self) -> (r: PortWrite)
        ensures
            r == (PortWrite { port: port_addr(self.control_base_spec(), 0), value: 0 }),
    {
        PortWrite { port: self.con_port(ControlPort::Status), value: 0 }
    }

    /// The address of a command block register.
    pub fn io_port(&self, io_port: IoPort) -> (r: u16)
        ensures
            r == port_addr(self.io_base_spec(), io_port.offset_spec()),
    {
        self.io_base.wrapping_add(io_port.offset())
    }

    /// The address of a control block register.
    pub fn con_port(&self, control_port: ControlPort) -> (r: u16)
        ensures
            r == port_addr(self.control_base_spec(), 0),
    {
        match control_port {
            ControlPort::Status => self.control_base.wrapping_add(0),
        }
    }

    /// The write that sends `command` on the command register.
    pub fn send_command(&self, command: Command) -> (r: PortWrite)
        ensures
            r == (PortWrite { port: port_addr(self.io_base_spec(), 7), value: command.code_spec() }),
    {
        PortWrite { port: self.io_port(IoPort::Status), value: command.code() }
    }

    /// The register writes that set up a transfer of `sector_count` sectors
    /// starting at sector `lba`.
    pub fn setup_at(&self, lba: usize, sector_count: u8) -> (r: Vec<PortWrite>)
        ensures
            r@ == setup_writes(self.io_base_spec(), lba, sector_count),
    {
        let mut v: Vec<PortWrite> = Vec::new();
        v.push(PortWrite { port: self.io_port(IoPort::DriveSel), value: (0xF0 | ((lba >> 24) & 0xF)) as u8 });
        v.push(PortWrite { port: self.io_port(IoPort::SectorCount), value: sector_count });
        v.push(PortWrite { port: self.io_port(IoPort::LbaLow), value: lba as u8 });
        v.push(PortWrite { port: self.io_port(IoPort::LbaMid), value: (lba >> 8) as u8 });
        v.push(PortWrite { port: self.io_port(IoPort::LbaHigh), value: (lba >> 16) as u8 });
        assert(v@ =~= setup_writes(self.io_base_spec(), lba, sector_count));
        v
    }

    /// The register writes that set up a read or write of `sector_count`
    /// sectors at the cursor. They are issued once the busy bit has cleared.
    pub fn before_read_write(&self, sector_count: u8) -> (r: Vec<PortWrite>)
        ensures
            r@ == setup_writes(self.io_base_spec(), (self.pos() / 512) as usize, sector_count),
    {
        let lba = self.calc_lba();
        self.setup_at(lba, sector_count)
    }

    /// Move the cursor. `Start` sets it; `Current` moves it by a signed
    /// offset and fails, leaving it as it was, where the result would be
    /// negative; `End` always fails.
    pub fn seek(&mut self, pos: SeekFrom) -> (r: Result<u64, SeekError>)
        requires
            pos matches SeekFrom::Start(p) ==> p <= usize::MAX,
            pos matches SeekFrom::Current(by) ==> old(self).pos() + by <= usize::MAX,
        ensures
            final(self).io_base_spec() == old(self).io_base_spec(),
            final(self).control_base_spec() == old(self).control_base_spec(),
            match pos {
                SeekFrom::Start(p) => r == Ok::<u64, SeekError>(p) && final(self).pos() == p,
                SeekFrom::Current(by) => if old(self).pos() + by >= 0 {
                    r == Ok::<u64, SeekError>((old(self).pos() + by) as u64)
                        && final(self).pos() == old(self).pos() + by
                } else {
                    r == Err::<u64, SeekError>(SeekError::OutOfRange) && final(self).pos() == old(self).pos()
                },
                SeekFrom::End(_) => r == Err::<u64, SeekError>(SeekError::Unsupported)
                    && final(self).pos() == old(self).pos(),
            },
    {
        match pos {
            SeekFrom::Start(p) => {
                self.position = p as usize;
                Ok(p)
            },
            SeekFrom::Current(by) => {
                let res: i128 = self.position as i128 + by as i128;
                if res >= 0 {
                    self.position = res as usize;
                    Ok(res as u64)
                } else {
                    Err(SeekError::OutOfRange)
                }
            },
            SeekFrom::End(_) => Err(SeekError::Unsupported),
        }
    }

    /// The sectors that a write of `len` bytes at the cursor covers only in
    /// part, whose other bytes must be read first and written back: the one
    /// holding the cursor, and the one holding the end of the range.
    pub fn get_partial_write_sectors(&self, len: usize) -> (r: (Option<usize>, Option<usize>))
        requires
            self.pos() + len <= usize::MAX,
        ensures
            r.0 == (if aligned(self.pos() as int) { None } else { Some((self.pos() / 512) as usize) }),
            r.1 == (if aligned(self.pos() + len) { None } else { Some(((self.pos() + len) / 512) as usize) }),
    {
        let start = if self.pos_aligned() { None } else { Some(self.calc_lba()) };
        let end_pos = self.position + len;
        let end = if Self::is_sector_aligned(end_pos) { None } else { Some(end_pos / SECTOR_SIZE) };
        (start, end)
    }

    /// Take the data words of a read of `buf.len()` bytes at the cursor:
    /// `words` holds the sectors transferred, from the one with the cursor.
    /// Fills `buf` with the requested bytes and advances the cursor.
    pub fn read(&mut self, words: &Vec<u16>, buf: &mut [u8]) -> (r: Result<usize, ()>)
        requires
            old(self).pos() + old(buf)@.len() <= usize::MAX,
            words@.len() == 256 * required_sectors(old(self).pos() as int, old(buf)@.len() as int),
        ensures
            r == Ok::<usize, ()>(old(buf)@.len() as usize),
            final(buf)@.len() == old(buf)@.len(),
            forall|j: int|
                0 <= j < final(buf)@.len() ==> final(buf)@[j] == stream_byte(
                    words@,
                    old(self).pos() % 512 + j,
                ),
            final(self).pos() == old(self).pos() + old(buf)@.len(),
            final(self).io_base_spec() == old(self).io_base_spec(),
            final(self).control_base_spec() == old(self).control_base_spec(),
    {
        let len = buf.len();
        let off = self.position % SECTOR_SIZE;
        proof {
            lemma_required_sectors_cover(self.pos() as int, len as int);
        }
        let mut j: usize = 0;
        while j < len
            invariant
                off + len <= usize::MAX,
                buf@.len() == len,
                len == old(buf)@.len(),
                off == old(self).pos() % 512,
                off + len <= 2 * words@.len(),
                j <= len,
                forall|i: int| 0 <= i < j ==> buf@[i] == stream_byte(words@, off + i),
            decreases len - j,
        {
            let k = off + j;
            let w = words[k / 2];
            let b = byte_of_word(w, k);
            buf[j] = b;
            j += 1;
        }
        self.position = self.position + len;
        Ok(len)
    }

    /// Byte `k` of the data of a write (see `merged_byte`).
    fn merged_byte_at(
        buf: &[u8],
        start_sector: &Option<Vec<u16>>,
        end_sector: &Option<Vec<u16>>,
        off: usize,
        count: usize,
        k: usize,
    ) -> (r: u8)
        requires
            k < 512 * count,
            off < 512,
            1 <= count <= 255,
            512 * (count - 1) < off + buf@.len() <= 512 * count,
            off != 0 ==> sector_seq(*start_sector).len() == 256,
            (off + buf@.len()) % 512 != 0 ==> sector_seq(*end_sector).len() == 256,
        ensures
            r == merged_byte(sector_seq(*start_sector), sector_seq(*end_sector), buf@, off as int, count as int, k as int),
    {
        if k < off {
            let w = match start_sector {
                Some(s) => s[k / 2],
                None => 0,
            };
            byte_of_word(w, k)
        } else if k < off + buf.len() {
            buf[k - off]
        } else {
            let e = k - SECTOR_SIZE * (count - 1);
            let w = match end_sector {
                Some(s) => s[e / 2],
                None => 0,
            };
            byte_of_word(w, e)
        }
    }

    /// The data words of a write of `buf` at the cursor, to be sent after the
    /// setup from `before_read_write`; advances the cursor. `start_sector`
    /// and `end_sector` hold the sectors named by `get_partial_write_sectors`,
    /// as they were before the write.
    pub fn write(
        &mut self,
        buf: &[u8],
        start_sector: &Option<Vec<u16>>,
        end_sector: &Option<Vec<u16>>,
    ) -> (r: Vec<u16>)
        requires
            buf@.len() > 0,
            old(self).pos() + buf@.len() <= usize::MAX,
            required_sectors(old(self).pos() as int, buf@.len() as int) <= 255,
            start_sector.is_some() == !aligned(old(self).pos() as int),
            end_sector.is_some() == !aligned(old(self).pos() + buf@.len()),
            start_sector.is_some() ==> sector_seq(*start_sector).len() == 256,
            end_sector.is_some() ==> sector_seq(*end_sector).len() == 256,
        ensures
            r@.len() == 256 * required_sectors(old(self).pos() as int, buf@.len() as int),
            forall|k: int|
                0 <= k < 2 * r@.len() ==> stream_byte(r@, k) == merged_byte(
                    sector_seq(*start_sector),
                    sector_seq(*end_sector),
                    buf@,
                    (old(self).pos() % 512) as int,
                    required_sectors(old(self).pos() as int, buf@.len() as int),
                    k,
                ),
            final(self).pos() == old(self).pos() + buf@.len(),
            final(self).io_base_spec() == old(self).io_base_spec(),
            final(self).control_base_spec() == old(self).control_base_spec(),
    {
        let count = self.min_required_sector_count(buf.len()) as usize;
        let off = self.position % SECTOR_SIZE;
        proof {
            lemma_required_sectors_cover(self.pos() as int, buf@.len() as int);
            assert((self.pos() + buf@.len()) % 512 == (off + buf@.len()) % 512);
        }
        let n = count * SECTOR_WORDS;
        let mut out: Vec<u16> = Vec::new();
        let mut i: usize = 0;
        while i < n
            invariant
                n == 256 * count,
                1 <= count <= 255,
                off < 512,
                off == old(self).pos() % 512,
                512 * (count - 1) < off + buf@.len() <= 512 * count,
                off != 0 ==> sector_seq(*start_sector).len() == 256,
                (off + buf@.len()) % 512 != 0 ==> sector_seq(*end_sector).len() == 256,
                count == required_sectors(old(self).pos() as int, buf@.len() as int),
                i <= n,
                out@.len() == i,
                forall|k: int|
                    0 <= k < 2 * i ==> stream_byte(out@, k) == merged_byte(
                        sector_seq(*start_sector),
                        sector_seq(*end_sector),
                        buf@,
                        off as int,
                        count as int,
                        k,
                    ),
            decreases n - i,
        {
            let lo = Self::merged_byte_at(buf, start_sector, end_sector, off, count, 2 * i);
            let hi = Self::merged_byte_at(buf, start_sector, end_sector, off, count, 2 * i + 1);
            let w: u16 = (lo as u16) | ((hi as u16) << 8);
            proof {
                lemma_word_bytes(lo, hi);
                assert(w == word_of(lo, hi));
            }
            let ghost prev = out@;
            out.push(w);
            assert forall|k: int| 0 <= k < 2 * (i + 1) implies stream_byte(out@, k) == merged_byte(
                sector_seq(*start_sector),
                sector_seq(*end_sector),
                buf@,
                off as int,
                count as int,
                k,
            ) by {
                if k < 2 * i {
                    assert(k / 2 < i);
                    assert(out@[k / 2] == prev[k / 2]);
                    assert(stream_byte(prev, k) == stream_byte(out@, k));
                } else if k == 2 * i {
                    assert(k / 2 == i && k % 2 == 0);
                    assert(out@[k / 2] == w);
                    assert(stream_byte(out@, k) == lo);
                } else {
                    assert(k / 2 == i && k % 2 == 1);
                    assert(out@[k / 2] == w);
                    assert(stream_byte(out@, k) == hi);
                }
            }
            i += 1;
        }
        self.position = self.position + buf.len();
        out
    }

    /// Is `value` aligned on the start of a sector?
    pub fn is_sector_aligned(value: usize) -> (r: bool)
        ensures
            r == aligned(value as int),
    {
        assert((value & 511) == value % 512) by (bit_vector);
        value & 511 == 0
    }

    /// The sector count of a transfer of `bytes` bytes at the cursor, where it
    /// fits the 8-bit sector-count register.
    pub fn checked_sector_count(&self, bytes: usize) -> (r: Option<u8>)
        ensures
            r == (if required_sectors(self.pos() as int, bytes as int) <= 255 {
                Some(required_sectors(self.pos() as int, bytes as int) as u8)
            } else {
                None::<u8>
            }),
    {
        let c = self.sector_count(bytes);
        if c <= 255 {
            Some(c as u8)
        } else {
            None
        }
    }

    /// Is the cursor aligned on the start of a sector?
    pub fn pos_aligned(&self) -> (r: bool)
        ensures
            r == aligned(self.pos() as int),
    {
        Self::is_sector_aligned(self.position)
    }

    /// The sector index (LBA) that holds the cursor.
    pub fn calc_lba(&self) -> (r: usize)
        ensures
            r == self.pos() / 512,
    {
        self.position / SECTOR_SIZE
    }

    /// The number of sectors that an operation of `bytes` bytes at the
    /// cursor covers.
    fn sector_count(&self, bytes: usize) -> (r: usize)
        ensures
            r == required_sectors(self.pos() as int, bytes as int),
    {
        let p = self.position;
        assert((p & 511) == p % 512) by (bit_vector);
        assert((bytes & 511) == bytes % 512) by (bit_vector);
        let sector_aligned = Self::is_sector_aligned(bytes) && bytes != 0;
        let bleeds_into_next = if sector_aligned {
            !self.pos_aligned()
        } else {
            (p & 511) + (bytes & 511) > 512
        };
        let whole = bytes / SECTOR_SIZE;
        whole + if bleeds_into_next { 1usize } else { 0 } + if sector_aligned { 0usize } else { 1 }
    }

    /// The number of sectors to be read or written when doing an
    /// operation of `bytes` bytes starting at the cursor.
    pub fn min_required_sector_count(&self, bytes: usize) -> (r: u8)
        requires
            required_sectors(self.pos() as int, bytes as int) <= 255,
        ensures
            r == required_sectors(self.pos() as int, bytes as int),
    {
        self.sector_count(bytes) as u8
    }
}

} // verus!
