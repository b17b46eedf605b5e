//! Disk image layout: CHS and LBA addressing, MBR partition entries and
//! the plan of writes that builds a bootable Sodalite image.

use vstd::prelude::*;

verus! {

/// Sectors per track in the CHS geometry used for the image.
pub const SECTORS_PER_TRACK: u32 = 63;

/// Heads per cylinder in the CHS geometry used for the image.
pub const HEADS_PER_CYLINDER: u32 = 16;

/// Highest cylinder number that a CHS address can hold.
pub const MAX_CYLINDER: u32 = 1023;

/// A cylinder-head-sector address, as stored in an MBR partition entry.
///
/// `sector_cylinder` packs the sector in its low 6 bits and the cylinder
/// in the 10 bits above them.
#[derive(Clone, Copy)]
pub struct CHS {
    pub head: u8,
    pub sector_cylinder: u16,
}

impl CHS {
    /// The sector part of the packed field.
    pub open spec fn spec_sector(self) -> int {
        self.sector_cylinder as int % 64
    }

    /// The cylinder part of the packed field.
    pub open spec fn spec_cylinder(self) -> int {
        self.sector_cylinder as int / 64
    }

    /// Packs a sector (low 6 bits kept), a head and a cylinder (low 10 bits kept).
    pub fn from_values(sector: u8, head: u8, cylinder: u16) -> (chs: Self)
        ensures
            chs.head == head,
            chs.spec_sector() == sector as int % 64,
            chs.spec_cylinder() == cylinder as int % 1024,
    {
        let sector_cylinder: u16 = (sector & 0b00111111) as u16 | (cylinder << 6u16);
        assert(sector_cylinder as int % 64 == sector as int % 64
            && sector_cylinder as int / 64 == cylinder as int % 1024) by (bit_vector)
            requires
                sector_cylinder == ((sector & 0b00111111) as u16 | (cylinder << 6u16)),
        ;
        Self { head, sector_cylinder }
    }

    /// The sector number (1-based in a valid address).
    pub fn sector(&self) -> (s: u8)
        ensures
            s == self.spec_sector(),
    {
        let sc: u16 = self.sector_cylinder;
        let s: u8 = sc as u8 & 0b00111111;
        assert(s as int == sc as int % 64) by (bit_vector)
            requires
                s == (sc as u8 & 0b00111111),
        ;
        s
    }
}

/// A logical block address: the index of a 512-byte sector.
#[derive(Clone, Copy)]
pub struct LBA {
    pub sector: u32,
}

/// The cylinder that LBA `lba` falls on, before saturation.
pub open spec fn lba_cylinder(lba: int) -> int {
    lba / 63 / 16
}

/// Whether LBA `lba` lies beyond what a CHS address can reach.
pub open spec fn lba_beyond_chs(lba: int) -> bool {
    lba_cylinder(lba) > 1023
}

/// The CHS sector (1-based) of `lba`, saturated at 63.
pub open spec fn lba_chs_sector(lba: int) -> int {
    if lba_beyond_chs(lba) { 63 } else { lba % 63 + 1 }
}

/// The CHS head of `lba`, saturated at 15.
pub open spec fn lba_chs_head(lba: int) -> int {
    if lba_beyond_chs(lba) { 15 } else { lba / 63 % 16 }
}

/// The CHS cylinder of `lba`, saturated at 1023.
pub open spec fn lba_chs_cylinder(lba: int) -> int {
    if lba_beyond_chs(lba) { 1023 } else { lba_cylinder(lba) }
}

/// The LBA that a CHS triple names (sectors are 1-based).
pub open spec fn chs_to_lba(cylinder: int, head: int, sector: int) -> int {
    (cylinder * 16 + head) * 63 + sector - 1
}

impl LBA {
    pub fn from_value(sector: u32) -> (lba: Self)
        ensures
            lba.sector == sector,
    {
        Self { sector }
    }

    /// Converts to a CHS address with 16 heads and 63 sectors per track;
    /// addresses past cylinder 1023 become the largest CHS address (1023, 15, 63).
    pub fn as_chs(&self) -> (chs: CHS)
        ensures
            chs.spec_sector() == lba_chs_sector(self.sector as int),
            chs.head == lba_chs_head(self.sector as int),
            chs.spec_cylinder() == lba_chs_cylinder(self.sector as int),
    {
        let mut sector: u8 = (self.sector % SECTORS_PER_TRACK + 1) as u8;
        let total_head: u32 = self.sector / SECTORS_PER_TRACK;
        let mut head: u8 = (total_head % HEADS_PER_CYLINDER) as u8;
        let mut cylinder: u32 = total_head / HEADS_PER_CYLINDER;
        if cylinder > MAX_CYLINDER {
            sector = 63;
            head = 15;
            cylinder = MAX_CYLINDER;
        }
        CHS::from_values(sector, head, cylinder as u16)
    }
}

/// The byte offset of the sector in the image.
impl From<LBA> for u64 {
    fn from(lba: LBA) -> (offset: u64) {
        lba.sector as u64 * 512
    }
}

impl vstd::std_specs::convert::FromSpecImpl<LBA> for u64 {
    open spec fn obeys_from_spec() -> bool {
        true
    }

    open spec fn from_spec(lba: LBA) -> u64 {
        (lba.sector * 512) as u64
    }
}

/// The number of sectors from `rhs` up to `self`.
impl core::ops::Sub for LBA {
    type Output = LBA;

    fn sub(self, rhs: Self) -> (d: Self::Output) {
        LBA { sector: self.sector - rhs.sector }
    }
}

impl vstd::std_specs::ops::SubSpecImpl for LBA {
    open spec fn obeys_sub_spec() -> bool {
        true
    }

    open spec fn sub_req(self, rhs: LBA) -> bool {
        rhs.sector <= self.sector
    }

    open spec fn sub_spec(self, rhs: LBA) -> LBA {
        LBA { sector: (self.sector - rhs.sector) as u32 }
    }
}

/// Little-endian bytes of a 32-bit value.
pub open spec fn u32_le_bytes(x: u32) -> Seq<u8> {
    seq![x as u8, (x >> 8u32) as u8, (x >> 16u32) as u8, (x >> 24u32) as u8]
}

/// The three bytes of a packed CHS address: head, then the packed
/// sector/cylinder field in little-endian order.
pub open spec fn chs_bytes(chs: CHS) -> Seq<u8> {
    seq![chs.head, chs.sector_cylinder as u8, (chs.sector_cylinder >> 8u16) as u8]
}

fn push_u32_le(out: &mut Vec<u8>, x: u32)
    ensures
        final(out)@ == old(out)@ + u32_le_bytes(x),
{
    out.push(x as u8);
    out.push((x >> 8u32) as u8);
    out.push((x >> 16u32) as u8);
    out.push((x >> 24u32) as u8);
}

fn push_chs(out: &mut Vec<u8>, chs: &CHS)
    ensures
        final(out)@ == old(out)@ + chs_bytes(*chs),
{
    out.push(chs.head);
    out.push(chs.sector_cylinder as u8);
    out.push((chs.sector_cylinder >> 8u16) as u8);
}

/// One of the four primary partition entries of an MBR.
#[derive(Clone, Copy)]
pub struct MbrPartition {
    pub status: u8,
    pub first_sector_chs: CHS,
    pub partition_type: u8,
    pub last_sector_chs: CHS,
    pub first_sector: LBA,
    pub sector_size: LBA,
}

/// The 16 bytes of a partition entry as it stands in the MBR.
pub open spec fn partition_bytes(p: MbrPartition) -> Seq<u8> {
    seq![p.status] + chs_bytes(p.first_sector_chs) + seq![p.partition_type] + chs_bytes(
        p.last_sector_chs,
    ) + u32_le_bytes(p.first_sector.sector) + u32_le_bytes(p.sector_size.sector)
}

impl MbrPartition {
    /// An unused entry: every field zero.
    pub fn empty() -> (p: Self)
        ensures
            p.status == 0,
            p.partition_type == 0,
            p.first_sector_chs.head == 0,
            p.first_sector_chs.sector_cylinder == 0,
            p.last_sector_chs.head == 0,
            p.last_sector_chs.sector_cylinder == 0,
            p.first_sector.sector == 0,
            p.sector_size.sector == 0,
    {
        let first = CHS::from_values(0, 0, 0);
        let last = CHS::from_values(0, 0, 0);
        Self {
            status: 0,
            first_sector_chs: first,
            partition_type: 0,
            last_sector_chs: last,
            first_sector: LBA::from_value(0),
            sector_size: LBA::from_value(0),
        }
    }

    /// A bootable (status 0x80) entry spanning `first_sector` to `last_sector`.
    pub fn new(partition_type: u8, first_sector: LBA, last_sector: LBA) -> (p: Self)
        requires
            first_sector.sector <= last_sector.sector,
        ensures
            p.status == 0x80,
            p.partition_type == partition_type,
            p.first_sector == first_sector,
            p.sector_size.sector == last_sector.sector - first_sector.sector,
            p.first_sector_chs.head == lba_chs_head(first_sector.sector as int),
            p.first_sector_chs.spec_sector() == lba_chs_sector(first_sector.sector as int),
            p.first_sector_chs.spec_cylinder() == lba_chs_cylinder(first_sector.sector as int),
            p.last_sector_chs.head == lba_chs_head(last_sector.sector as int),
            p.last_sector_chs.spec_sector() == lba_chs_sector(last_sector.sector as int),
            p.last_sector_chs.spec_cylinder() == lba_chs_cylinder(last_sector.sector as int),
    {
        let sector_size = last_sector - first_sector;
        Self {
            status: 0x80,
            first_sector_chs: first_sector.as_chs(),
            partition_type,
            last_sector_chs: last_sector.as_chs(),
            first_sector,
            sector_size,
        }
    }

    fn push_bytes(&self, out: &mut Vec<u8>)
        ensures
            final(out)@ == old(out)@ + partition_bytes(*self),
    {
        let ghost start = out@;
        out.push(self.status);
        push_chs(out, &self.first_sector_chs);
        out.push(self.partition_type);
        push_chs(out, &self.last_sector_chs);
        push_u32_le(out, self.first_sector.sector);
        push_u32_le(out, self.sector_size.sector);
        assert(out@ =~= start + partition_bytes(*self));
    }
}

/// Offset of the disk signature inside the boot sector.
pub const MBR_SIGNATURE_OFFSET: usize = 0x1b8;

/// The master boot record: a disk signature and four primary partitions.
pub struct MBR {
    pub disk_signature: u32,
    pub primary_partitions: [MbrPartition; 4],
}

/// The 70 bytes that the MBR places at offset 0x1b8: the disk signature,
/// two zero bytes, then the four partition entries.
pub open spec fn mbr_area_bytes(mbr: MBR) -> Seq<u8> {
    u32_le_bytes(mbr.disk_signature) + seq![0u8, 0u8] + partition_bytes(
        mbr.primary_partitions@[0],
    ) + partition_bytes(mbr.primary_partitions@[1]) + partition_bytes(mbr.primary_partitions@[2])
        + partition_bytes(mbr.primary_partitions@[3])
}

/// A boot sector with the MBR written into bytes 0x1b8..0x1fe; the boot
/// code before and the two bytes after (the boot signature) are kept.
pub open spec fn boot_sector_with_mbr(mbr: MBR, bootsector: Seq<u8>) -> Seq<u8> {
    bootsector.subrange(0, 0x1b8) + mbr_area_bytes(mbr) + bootsector.subrange(0x1fe, 512)
}

impl MBR {
    /// An MBR with signature 420 and four unused entries.
    pub fn empty() -> (mbr: Self)
        ensures
            mbr.disk_signature == 420,
            forall|i: int|
                0 <= i < 4 ==> (#[trigger] mbr.primary_partitions@[i]).status == 0
                    && mbr.primary_partitions@[i].partition_type == 0
                    && mbr.primary_partitions@[i].first_sector_chs.head == 0
                    && mbr.primary_partitions@[i].first_sector_chs.sector_cylinder == 0
                    && mbr.primary_partitions@[i].last_sector_chs.head == 0
                    && mbr.primary_partitions@[i].last_sector_chs.sector_cylinder == 0
                    && mbr.primary_partitions@[i].first_sector.sector == 0
                    && mbr.primary_partitions@[i].sector_size.sector == 0,
    {
        Self {
            disk_signature: 420,
            primary_partitions: [
                MbrPartition::empty(),
                MbrPartition::empty(),
                MbrPartition::empty(),
                MbrPartition::empty(),
            ],
        }
    }

    /// The 70 bytes of the MBR area.
    fn area_bytes(&self) -> (out: Vec<u8>)
        ensures
            out@ == mbr_area_bytes(*self),
    {
        let mut out: Vec<u8> = Vec::new();
        push_u32_le(&mut out, self.disk_signature);
        out.push(0);
        out.push(0);
        self.primary_partitions[0].push_bytes(&mut out);
        self.primary_partitions[1].push_bytes(&mut out);
        self.primary_partitions[2].push_bytes(&mut out);
        self.primary_partitions[3].push_bytes(&mut out);
        assert(out@ =~= mbr_area_bytes(*self));
        out
    }

    /// Writes the MBR into a copy of `bootsector`.
    pub fn combine_with_bootsector(&self, bootsector: [u8; 512]) -> (out: [u8; 512])
        ensures
            out@ == boot_sector_with_mbr(*self, bootsector@),
    {
        let area = self.area_bytes();
        let mut out = bootsector;
        let mut i: usize = 0;
        while i < 70
            invariant
                0 <= i <= 70,
                area@ == mbr_area_bytes(*self),
                area@.len() == 70,
                out@.len() == 512,
                forall|j: int| 0 <= j < i ==> #[trigger] out@[0x1b8 + j] == area@[j],
                forall|j: int|
                    0 <= j < 512 && !(0x1b8 <= j < 0x1b8 + i) ==> #[trigger] out@[j]
                        == bootsector@[j],
            decreases 70 - i,
        {
            out[MBR_SIGNATURE_OFFSET + i] = area[i];
            i = i + 1;
        }
        let ghost expected = boot_sector_with_mbr(*self, bootsector@);
        assert forall|j: int| 0 <= j < 512 implies #[trigger] out@[j] == expected[j] by {
            if 0x1b8 <= j < 0x1fe {
                assert(out@[0x1b8 + (j - 0x1b8)] == area@[j - 0x1b8]);
            }
        }
        assert(out@ =~= expected);
        out
    }
}


/// The partition table written into the first sector of the image.
pub enum PartitionTable {
    MBR(MBR),
    Unpartitioned,
}

/// The first sector as written for `partition_table`: the boot sector with
/// the MBR merged in, or the boot sector alone.
pub open spec fn first_sector_bytes(partition_table: PartitionTable, bootsector: Seq<u8>) -> Seq<
    u8,
> {
    match partition_table {
        PartitionTable::MBR(mbr) => boot_sector_with_mbr(mbr, bootsector),
        PartitionTable::Unpartitioned => bootsector,
    }
}

impl PartitionTable {
    /// First sector that is free for the boot loader.
    pub fn partition_head_end(&self) -> (lba: LBA)
        ensures
            lba.sector == 1,
    {
        match self {
            PartitionTable::MBR(_) => LBA::from_value(1),
            PartitionTable::Unpartitioned => LBA::from_value(1),
        }
    }
}

/// A write of `bytes` at byte `offset` of the image file.
pub struct DiskWrite {
    pub offset: u64,
    pub bytes: Vec<u8>,
}

/// Offset in the boot sector of the three bytes that tell the boot code
/// where Sodalite starts and how long it is.
pub const SODALITE_SETTINGS_OFFSET: u64 = 0xd3;

/// The third settings byte: `(len / 512 / 63)` truncated to a byte, plus 1,
/// plus the head (always 0 for sector 1).
pub open spec fn sodalite_last_head(len: int) -> int {
    (len / 512 / 63) % 256 + 1
}

/// The contents of a file after writing `bytes` at `offset`: the file grows
/// (zero-filled) when the write ends past its end.
pub open spec fn apply_write(disk: Seq<u8>, offset: int, bytes: Seq<u8>) -> Seq<u8> {
    let end = offset + bytes.len();
    let len = if end > disk.len() { end } else { disk.len() as int };
    Seq::new(
        len as nat,
        |i: int|
            if offset <= i < end {
                bytes[i - offset]
            } else if i < disk.len() {
                disk[i]
            } else {
                0u8
            },
    )
}

/// A disk image under construction: its size and the partition table
/// written so far. The file itself is written by the caller, following
/// the `DiskWrite`s that the methods return.
pub struct Image {
    /// Size is in bytes. Must be divisible by `512`.
    pub size: u64,
    pub partition_table: PartitionTable,
}

impl Image {
    /// The size is a whole number of sectors.
    pub open spec fn wf(&self) -> bool {
        self.size % 512 == 0
    }

    /// A fresh image of `size` zero bytes with no partition table.
    pub fn create(size: u64) -> (image: Self)
        requires
            size % 512 == 0,
        ensures
            image.wf(),
            image.size == size,
            image.partition_table is Unpartitioned,
    {
        Self { size, partition_table: PartitionTable::Unpartitioned }
    }

    /// Records `partition_table` and returns the write of the first sector:
    /// `bootsector` with the partition table merged in.
    pub fn write_partition_table(&mut self, partition_table: PartitionTable, bootsector: [u8; 512]) -> (w: DiskWrite)
        ensures
            w.offset == 0,
            w.bytes@ == first_sector_bytes(partition_table, bootsector@),
            final(self).size == old(self).size,
            old(self).wf() ==> final(self).wf(),
            final(self).partition_table == partition_table,
    {
        let bytes: [u8; 512] = match &partition_table {
            PartitionTable::MBR(mbr) => mbr.combine_with_bootsector(bootsector),
            PartitionTable::Unpartitioned => bootsector,
        };
        self.partition_table = partition_table;
        DiskWrite { offset: 0, bytes: vstd::slice::slice_to_vec(bytes.as_slice()) }
    }

    /// The two writes that install Sodalite: the settings bytes at 0xd3
    /// (first sector, head, last head of Sodalite) and the code itself from
    /// the first sector after the partition head.
    pub fn write_sodalite(&self, sodalite: &[u8]) -> (ws: (DiskWrite, DiskWrite))
        requires
            sodalite_last_head(sodalite@.len() as int) <= 255,
        ensures
            ws.0.offset == SODALITE_SETTINGS_OFFSET,
            ws.0.bytes@ == seq![2u8, 0u8, sodalite_last_head(sodalite@.len() as int) as u8],
            ws.1.offset == 512,
            ws.1.bytes@ == sodalite@,
    {
        let begin = self.partition_table.partition_head_end();
        let chs = begin.as_chs();
        let sectors: usize = sodalite.len() / 512 / 63;
        let count: u8 = #[verifier::truncate] (sectors as u8);
        assert(count == sectors % 256) by (bit_vector)
            requires
                count == #[verifier::truncate] (sectors as u8),
        ;
        assert(chs.head == 0 && chs.spec_sector() == 2);
        let mut settings: Vec<u8> = Vec::new();
        settings.push(chs.sector());
        settings.push(chs.head);
        settings.push(count + 1 + chs.head);
        let code = DiskWrite { offset: u64::from(begin), bytes: vstd::slice::slice_to_vec(sodalite) };
        (DiskWrite { offset: SODALITE_SETTINGS_OFFSET, bytes: settings }, code)
    }
}


/// Every LBA maps to a CHS address inside the geometry: sector 1..=63,
/// head 0..=15, cylinder 0..=1023.
pub proof fn lemma_chs_in_geometry(lba: u32)
    ensures
        1 <= lba_chs_sector(lba as int) <= 63,
        0 <= lba_chs_head(lba as int) <= 15,
        0 <= lba_chs_cylinder(lba as int) <= 1023,
{
}

/// LBA to CHS conversion is exact below 1024 * 16 * 63 sectors: the CHS
/// address names the same sector again. From there on it saturates at
/// the largest CHS address (1023, 15, 63).
pub proof fn lemma_chs_round_trip(lba: u32)
    ensures
        lba < 1032192 ==> chs_to_lba(
            lba_chs_cylinder(lba as int),
            lba_chs_head(lba as int),
            lba_chs_sector(lba as int),
        ) == lba,
        lba >= 1032192 ==> lba_chs_cylinder(lba as int) == 1023 && lba_chs_head(lba as int) == 15
            && lba_chs_sector(lba as int) == 63,
{
    let l = lba as int;
    assert(l == (l / 63) * 63 + l % 63) by (nonlinear_arith);
    assert(l / 63 == (l / 63 / 16) * 16 + (l / 63) % 16) by (nonlinear_arith);
    assert(l < 1032192 <==> l / 63 / 16 <= 1023) by (nonlinear_arith)
        requires
            0 <= l,
    ;
}

/// The value of little-endian bytes.
pub open spec fn le_value(bytes: Seq<u8>) -> int
    decreases bytes.len(),
{
    if bytes.len() == 0 {
        0
    } else {
        bytes[0] as int + 256 * le_value(bytes.drop_first())
    }
}

/// The four little-endian bytes written for a 32-bit field read back as
/// that field.
pub proof fn lemma_u32_le_round_trip(x: u32)
    ensures
        le_value(u32_le_bytes(x)) == x,
{
    let b = u32_le_bytes(x);
    assert(b.drop_first().drop_first().drop_first().drop_first().len() == 0);
    reveal_with_fuel(le_value, 5);
    let b0 = x as u8;
    let b1 = (x >> 8u32) as u8;
    let b2 = (x >> 16u32) as u8;
    let b3 = (x >> 24u32) as u8;
    assert(b0 as int + 256 * (b1 as int + 256 * (b2 as int + 256 * (b3 as int))) == x as int)
        by (bit_vector)
        requires
            b0 == x as u8,
            b1 == (x >> 8u32) as u8,
            b2 == (x >> 16u32) as u8,
            b3 == (x >> 24u32) as u8,
    ;
    assert(b.drop_first() =~= seq![b1, b2, b3]);
    assert(b.drop_first().drop_first() =~= seq![b2, b3]);
    assert(b.drop_first().drop_first().drop_first() =~= seq![b3]);
}

/// Merging an MBR into a 512-byte boot sector keeps the boot code
/// (bytes 0..0x1b8) and the boot signature (bytes 0x1fe..0x200), puts the
/// disk signature at 0x1b8, two zero bytes at 0x1bc and partition entry `k`
/// at 0x1be + 16 * k.
pub proof fn lemma_mbr_layout(mbr: MBR, bootsector: Seq<u8>)
    requires
        bootsector.len() == 512,
    ensures
        ({
            let s = boot_sector_with_mbr(mbr, bootsector);
            &&& s.len() == 512
            &&& forall|j: int| 0 <= j < 0x1b8 ==> #[trigger] s[j] == bootsector[j]
            &&& forall|j: int| 0x1fe <= j < 512 ==> #[trigger] s[j] == bootsector[j]
            &&& s.subrange(0x1b8, 0x1bc) == u32_le_bytes(mbr.disk_signature)
            &&& s[0x1bc] == 0 && s[0x1bd] == 0
            &&& forall|k: int|
                0 <= k < 4 ==> #[trigger] s.subrange(0x1be + 16 * k, 0x1be + 16 * k + 16)
                    == partition_bytes(mbr.primary_partitions@[k])
        }),
{
    let s = boot_sector_with_mbr(mbr, bootsector);
    let a = mbr_area_bytes(mbr);
    assert(s.subrange(0x1b8, 0x1bc) =~= u32_le_bytes(mbr.disk_signature));
    assert forall|k: int| 0 <= k < 4 implies #[trigger] s.subrange(0x1be + 16 * k, 0x1be + 16 * k + 16)
        == partition_bytes(mbr.primary_partitions@[k]) by {
        if k == 0 {
            assert(s.subrange(0x1be, 0x1ce) =~= partition_bytes(mbr.primary_partitions@[0]));
        } else if k == 1 {
            assert(s.subrange(0x1ce, 0x1de) =~= partition_bytes(mbr.primary_partitions@[1]));
        } else if k == 2 {
            assert(s.subrange(0x1de, 0x1ee) =~= partition_bytes(mbr.primary_partitions@[2]));
        } else {
            assert(s.subrange(0x1ee, 0x1fe) =~= partition_bytes(mbr.primary_partitions@[3]));
        }
    }
}

/// The image that `Image::create`, `Image::write_partition_table` and
/// `Image::write_sodalite` describe, when their writes are applied in that
/// order to a zeroed file of `size` bytes: the first sector as written for
/// the partition table, except the three settings bytes at 0xd3; Sodalite
/// from byte 512 on; zeros after it up to the image size.
pub proof fn lemma_image_layout(
    size: u64,
    partition_table: PartitionTable,
    bootsector: Seq<u8>,
    sodalite: Seq<u8>,
)
    requires
        bootsector.len() == 512,
    ensures
        ({
            let first = first_sector_bytes(partition_table, bootsector);
            let settings = seq![2u8, 0u8, sodalite_last_head(sodalite.len() as int) as u8];
            let d0 = Seq::new(size as nat, |i: int| 0u8);
            let d1 = apply_write(d0, 0, first);
            let d2 = apply_write(d1, 0xd3, settings);
            let d = apply_write(d2, 512, sodalite);
            &&& d.len() == if size > 512 + sodalite.len() { size as int } else { 512 + sodalite.len() as int }
            &&& forall|j: int| 0 <= j < 0xd3 ==> #[trigger] d[j] == first[j]
            &&& d.subrange(0xd3, 0xd6) == settings
            &&& forall|j: int| 0xd6 <= j < 512 ==> #[trigger] d[j] == first[j]
            &&& d.subrange(512, 512 + sodalite.len() as int) == sodalite
            &&& forall|j: int| 512 + sodalite.len() <= j < size ==> #[trigger] d[j] == 0
        }),
{
    let first = first_sector_bytes(partition_table, bootsector);
    assert(first.len() == 512) by {
        match partition_table {
            PartitionTable::MBR(mbr) => lemma_mbr_layout(mbr, bootsector),
            PartitionTable::Unpartitioned => {},
        }
    }
    let settings = seq![2u8, 0u8, sodalite_last_head(sodalite.len() as int) as u8];
    let d0 = Seq::new(size as nat, |i: int| 0u8);
    let d1 = apply_write(d0, 0, first);
    let d2 = apply_write(d1, 0xd3, settings);
    let d = apply_write(d2, 512, sodalite);
    assert(d.subrange(0xd3, 0xd6) =~= settings);
    assert(d.subrange(512, 512 + sodalite.len() as int) =~= sodalite);
}


proof fn lemma_u16_le_round_trip(x: u16)
    ensures
        le_value(seq![x as u8, (x >> 8u16) as u8]) == x,
{
    let b = seq![x as u8, (x >> 8u16) as u8];
    reveal_with_fuel(le_value, 3);
    let b0 = x as u8;
    let b1 = (x >> 8u16) as u8;
    assert(b0 as int + 256 * (b1 as int) == x as int) by (bit_vector)
        requires
            b0 == x as u8,
            b1 == (x >> 8u16) as u8,
    ;
    assert(b.drop_first() =~= seq![b1]);
    assert(b.drop_first().drop_first().len() == 0);
}

/// Reads the 16 bytes of a partition entry back: byte 0 is the status,
/// byte 4 the type, bytes 1 and 5 the heads of the first and last CHS
/// addresses, bytes 2..4 and 6..8 their packed sector/cylinder fields,
/// bytes 8..12 the first sector and 12..16 the size, all little-endian.
pub proof fn lemma_partition_entry_fields(p: MbrPartition)
    ensures
        ({
            let e = partition_bytes(p);
            &&& e.len() == 16
            &&& e[0] == p.status
            &&& e[1] == p.first_sector_chs.head
            &&& le_value(e.subrange(2, 4)) == p.first_sector_chs.sector_cylinder
            &&& e[4] == p.partition_type
            &&& e[5] == p.last_sector_chs.head
            &&& le_value(e.subrange(6, 8)) == p.last_sector_chs.sector_cylinder
            &&& le_value(e.subrange(8, 12)) == p.first_sector.sector
            &&& le_value(e.subrange(12, 16)) == p.sector_size.sector
        }),
{
    let e = partition_bytes(p);
    let f = p.first_sector_chs.sector_cylinder;
    let l = p.last_sector_chs.sector_cylinder;
    assert(e.subrange(2, 4) =~= seq![f as u8, (f >> 8u16) as u8]);
    assert(e.subrange(6, 8) =~= seq![l as u8, (l >> 8u16) as u8]);
    assert(e.subrange(8, 12) =~= u32_le_bytes(p.first_sector.sector));
    assert(e.subrange(12, 16) =~= u32_le_bytes(p.sector_size.sector));
    lemma_u16_le_round_trip(f);
    lemma_u16_le_round_trip(l);
    lemma_u32_le_round_trip(p.first_sector.sector);
    lemma_u32_le_round_trip(p.sector_size.sector);
}

/// Writing an MBR partition table writes the whole MBR into the first
/// sector: the boot code before 0x1b8 and the two bytes from 0x1fe on
/// stay as in the boot sector, the disk signature reads back from
/// 0x1b8..0x1bc, 0x1bc and 0x1bd are zero, and entry `k` at
/// 0x1be + 16 * k reads back as primary partition `k`, field by field.
pub proof fn lemma_partition_table_written(mbr: MBR, bootsector: Seq<u8>)
    requires
        bootsector.len() == 512,
    ensures
        ({
            let s = first_sector_bytes(PartitionTable::MBR(mbr), bootsector);
            &&& s.len() == 512
            &&& forall|j: int|
                (0 <= j < 0x1b8 || 0x1fe <= j < 512) ==> #[trigger] s[j] == bootsector[j]
            &&& le_value(s.subrange(0x1b8, 0x1bc)) == mbr.disk_signature
            &&& s[0x1bc] == 0 && s[0x1bd] == 0
            &&& forall|k: int|
                0 <= k < 4 ==> {
                    let e = #[trigger] s.subrange(0x1be + 16 * k, 0x1be + 16 * k + 16);
                    let p = mbr.primary_partitions@[k];
                    &&& e[0] == p.status
                    &&& e[1] == p.first_sector_chs.head
                    &&& le_value(e.subrange(2, 4)) == p.first_sector_chs.sector_cylinder
                    &&& e[4] == p.partition_type
                    &&& e[5] == p.last_sector_chs.head
                    &&& le_value(e.subrange(6, 8)) == p.last_sector_chs.sector_cylinder
                    &&& le_value(e.subrange(8, 12)) == p.first_sector.sector
                    &&& le_value(e.subrange(12, 16)) == p.sector_size.sector
                }
        }),
{
    let s = first_sector_bytes(PartitionTable::MBR(mbr), bootsector);
    lemma_mbr_layout(mbr, bootsector);
    lemma_u32_le_round_trip(mbr.disk_signature);
    assert forall|k: int| 0 <= k < 4 implies {
        let e = #[trigger] s.subrange(0x1be + 16 * k, 0x1be + 16 * k + 16);
        let p = mbr.primary_partitions@[k];
        &&& e[0] == p.status
        &&& e[1] == p.first_sector_chs.head
        &&& le_value(e.subrange(2, 4)) == p.first_sector_chs.sector_cylinder
        &&& e[4] == p.partition_type
        &&& e[5] == p.last_sector_chs.head
        &&& le_value(e.subrange(6, 8)) == p.last_sector_chs.sector_cylinder
        &&& le_value(e.subrange(8, 12)) == p.first_sector.sector
        &&& le_value(e.subrange(12, 16)) == p.sector_size.sector
    } by {
        lemma_partition_entry_fields(mbr.primary_partitions@[k]);
    }
}

/// The third settings byte counts the whole 63-sector tracks that Sodalite
/// fills, plus one: while that count fits (below 255 tracks), the byte `h`
/// satisfies `(h - 1) * 63 * 512 <= len < h * 63 * 512`.
pub proof fn lemma_sodalite_tracks(len: int)
    requires
        0 <= len < 255 * 63 * 512,
    ensures
        1 <= sodalite_last_head(len) <= 255,
        (sodalite_last_head(len) - 1) * 63 * 512 <= len < sodalite_last_head(len) * 63 * 512,
{
    let t = len / 512 / 63;
    assert(len / 512 / 63 == len / 32256 && 0 <= len / 32256 < 255) by (nonlinear_arith)
        requires
            0 <= len < 255 * 32256,
    ;
    assert(t * 32256 <= len < (t + 1) * 32256) by (nonlinear_arith)
        requires
            t == len / 32256,
            0 <= len,
    ;
}

/// A longer Sodalite never gets a smaller third settings byte, as long as
/// the track count fits.
pub proof fn lemma_sodalite_last_head_grows(a: int, b: int)
    requires
        0 <= a <= b < 255 * 63 * 512,
    ensures
        sodalite_last_head(a) <= sodalite_last_head(b),
{
    lemma_sodalite_tracks(a);
    lemma_sodalite_tracks(b);
    let ha = sodalite_last_head(a);
    let hb = sodalite_last_head(b);
    assert(ha <= hb) by (nonlinear_arith)
        requires
            (ha - 1) * 63 * 512 <= a,
            b < hb * 63 * 512,
            a <= b,
    ;
}

} // verus!
