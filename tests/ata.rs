use ata_pio::ata::{AtaDrive, Command, IoPort, PortWrite, SeekError, SeekFrom, StatusBits};

const MEDIA_SIZE: usize = 1024 * 64;

/// A drive's media, with the number of sectors read back for preservation.
struct Disk {
    media: Vec<u8>,
    preservation_reads: usize,
}

fn next(state: &mut u64) -> u64 {
    *state ^= *state << 13;
    *state ^= *state >> 7;
    *state ^= *state << 17;
    *state
}

fn disk() -> Disk {
    let mut state: u64 = 0x9E37_79B9_7F4A_7C15;
    let media = (0..MEDIA_SIZE).map(|_| next(&mut state) as u8).collect();
    Disk { media, preservation_reads: 0 }
}

fn drive() -> AtaDrive {
    AtaDrive::new(0x1F0, 0x3F6, 0x50).unwrap()
}

/// The LBA that a setup sequence programs.
fn programmed_lba(setup: &[PortWrite]) -> usize {
    assert_eq!(setup.len(), 5);
    let top = (setup[0].value & 0x0F) as usize;
    (top << 24) | ((setup[4].value as usize) << 16) | ((setup[3].value as usize) << 8) | setup[2].value as usize
}

fn sector_words(media: &[u8], lba: usize, count: usize) -> Vec<u16> {
    let base = lba * 512;
    (0..count * 256)
        .map(|w| media[base + 2 * w] as u16 | ((media[base + 2 * w + 1] as u16) << 8))
        .collect()
}

fn read(drive: &mut AtaDrive, disk: &Disk, buf: &mut [u8]) -> usize {
    let count = drive.min_required_sector_count(buf.len());
    let setup = drive.before_read_write(count);
    assert_eq!(setup[1].value, count);
    let words = sector_words(&disk.media, programmed_lba(&setup), count as usize);
    drive.read(&words, buf).unwrap()
}

fn write(drive: &mut AtaDrive, disk: &mut Disk, buf: &[u8]) {
    let count = drive.min_required_sector_count(buf.len());
    let (start, end) = drive.get_partial_write_sectors(buf.len());
    let start = start.map(|lba| sector_words(&disk.media, lba, 1));
    let end = end.map(|lba| sector_words(&disk.media, lba, 1));
    disk.preservation_reads += start.is_some() as usize + end.is_some() as usize;
    let setup = drive.before_read_write(count);
    let lba = programmed_lba(&setup);
    let words = drive.write(buf, &start, &end);
    assert_eq!(words.len(), count as usize * 256);
    for (i, w) in words.iter().enumerate() {
        disk.media[lba * 512 + 2 * i] = *w as u8;
        disk.media[lba * 512 + 2 * i + 1] = (*w >> 8) as u8;
    }
}

fn read_count(count: usize, repetitions: usize) {
    let disk = disk();
    let mut bus = drive();
    let mut buf = vec![0u8; count];
    for i in 0..repetitions {
        assert_eq!(read(&mut bus, &disk, &mut buf), count);
        let buf_start = i * count;
        assert_eq!(buf[..], disk.media[buf_start..(buf_start + count)]);
    }
}

fn write_verify(count: usize, repetitions: usize, seed: u64) {
    let mut disk = disk();
    let mut bus = drive();
    let mut state = seed | 1;
    let mut write_buf = vec![0u8; count];
    let mut verify_buf = vec![0u8; count];
    for _ in 0..repetitions {
        for elem in write_buf.iter_mut() {
            *elem = next(&mut state) as u8;
        }
        write(&mut bus, &mut disk, &write_buf);
        bus.seek(SeekFrom::Current(-(count as i64))).unwrap();
        read(&mut bus, &disk, &mut verify_buf);
        assert_eq!(write_buf, verify_buf);
    }
}

#[test]
fn seek() {
    let mut bus = drive();
    assert_eq!(bus.seek(SeekFrom::Start(12)), Ok(12));
    assert_eq!(bus.position(), 12);
    assert_eq!(bus.seek(SeekFrom::Current(12)), Ok(24));
    assert_eq!(bus.position(), 24);
    assert_eq!(bus.seek(SeekFrom::Start(457)), Ok(457));
    assert_eq!(bus.position(), 457);
    assert_eq!(bus.seek(SeekFrom::Current(-12)), Ok(445));
    assert_eq!(bus.position(), 445);

    assert_eq!(bus.seek(SeekFrom::Current(-1000)), Err(SeekError::OutOfRange));
    assert_eq!(bus.position(), 445);
    assert_eq!(bus.seek(SeekFrom::End(0)), Err(SeekError::Unsupported));
    assert_eq!(bus.position(), 445);
}

#[test]
fn correct_sector_count() {
    let mut bus = drive();
    assert_eq!(bus.min_required_sector_count(3), 1);
    assert_eq!(bus.min_required_sector_count(200), 1);
    assert_eq!(bus.min_required_sector_count(512), 1);
    assert_eq!(bus.min_required_sector_count(513), 2);
    assert_eq!(bus.min_required_sector_count(2000), 4);

    bus.seek(SeekFrom::Start(200)).unwrap();
    assert_eq!(bus.min_required_sector_count(3), 1);
    assert_eq!(bus.min_required_sector_count(200), 1);
    assert_eq!(bus.min_required_sector_count(512), 2);
    assert_eq!(bus.min_required_sector_count(513), 2);
    assert_eq!(bus.min_required_sector_count(2000), 5);
}

#[test]
fn sector_count_edges() {
    let mut bus = drive();
    assert_eq!(bus.min_required_sector_count(0), 1);
    assert_eq!(bus.min_required_sector_count(1024), 2);
    bus.seek(SeekFrom::Start(511)).unwrap();
    assert_eq!(bus.min_required_sector_count(1), 1);
    assert_eq!(bus.min_required_sector_count(2), 2);
    bus.seek(SeekFrom::Start(312)).unwrap();
    assert_eq!(bus.min_required_sector_count(200), 1);
    assert_eq!(bus.min_required_sector_count(201), 2);
}

#[test]
fn read_first_sector() {
    read_count(512, 1)
}

#[test]
fn read_multiple_sectors() {
    read_count(2048, 1)
}

#[test]
fn read_multiple_chunked() {
    read_count(512, 10)
}

#[test]
fn read_partial_sector() {
    read_count(128, 1)
}

#[test]
fn read_partial_multiple() {
    read_count(128, 10)
}

#[test]
fn read_non_pow2() {
    read_count(200, 10)
}

#[test]
fn read_uneven() {
    read_count(3, 10);
    read_count(201, 10)
}

#[test]
fn read_twice_same_bytes() {
    let disk = disk();
    let mut bus = drive();
    let mut first = vec![0u8; 777];
    let mut second = vec![0u8; 777];
    bus.seek(SeekFrom::Start(301)).unwrap();
    read(&mut bus, &disk, &mut first);
    assert_eq!(bus.position(), 301 + 777);
    bus.seek(SeekFrom::Start(301)).unwrap();
    read(&mut bus, &disk, &mut second);
    assert_eq!(first, second);
    assert_eq!(first[..], disk.media[301..301 + 777]);
}

#[test]
fn read_scatters_words() {
    let mut bus = drive();
    bus.seek(SeekFrom::Start(1)).unwrap();
    let mut words = vec![0u16; 256];
    words[0] = 0x2211;
    words[1] = 0x4433;
    let mut buf = [0u8; 3];
    assert_eq!(bus.read(&words, &mut buf), Ok(3));
    assert_eq!(buf, [0x22, 0x33, 0x44]);
    assert_eq!(bus.position(), 4);
}

#[test]
fn write_preserve() {
    let mut disk = disk();
    let before = disk.media.clone();
    let mut bus = drive();
    let write_buf = [35u8; 100];
    let mut verify_buf = [0u8; 512];

    bus.seek(SeekFrom::Start(100)).unwrap();
    write(&mut bus, &mut disk, &write_buf);
    bus.seek(SeekFrom::Start(0)).unwrap();
    read(&mut bus, &disk, &mut verify_buf);
    assert_eq!(verify_buf[0..100], before[0..100]);
    assert_eq!(verify_buf[100..200], write_buf);
    assert_eq!(verify_buf[200..512], before[200..512]);
    assert_eq!(disk.media[512..], before[512..]);
}

#[test]
fn write_first_sector() {
    write_verify(512, 1, 124254)
}

#[test]
fn write_multiple_sectors() {
    write_verify(2048, 1, 96789)
}

#[test]
fn write_multiple_chunked() {
    write_verify(512, 10, 45897689)
}

#[test]
fn write_partial_sector() {
    write_verify(128, 1, 42)
}

#[test]
fn write_partial_multiple() {
    write_verify(128, 10, 42069)
}

#[test]
fn write_non_pow2() {
    write_verify(200, 10, 20)
}

#[test]
fn write_uneven() {
    write_verify(3, 10, 123);
    write_verify(201, 10, 12123)
}

#[test]
fn aligned_write_reads_no_boundary_sector() {
    let mut disk = disk();
    let mut bus = drive();
    bus.seek(SeekFrom::Start(1024)).unwrap();
    assert_eq!(bus.get_partial_write_sectors(1024), (None, None));
    write(&mut bus, &mut disk, &[7u8; 1024]);
    assert_eq!(disk.preservation_reads, 0);
    assert_eq!(disk.media[1024..2048], [7u8; 1024]);
}

#[test]
fn misaligned_write_reads_one_boundary_sector() {
    let mut bus = drive();
    bus.seek(SeekFrom::Start(1025)).unwrap();
    assert_eq!(bus.get_partial_write_sectors(1023), (Some(2), None));
    bus.seek(SeekFrom::Start(1024)).unwrap();
    assert_eq!(bus.get_partial_write_sectors(1023), (None, Some(3)));

    let mut disk = disk();
    let before = disk.media.clone();
    bus.seek(SeekFrom::Start(1024)).unwrap();
    write(&mut bus, &mut disk, &[9u8; 1023]);
    assert_eq!(disk.preservation_reads, 1);
    assert_eq!(disk.media[2047], before[2047]);
    assert_eq!(bus.position(), 2047);
}

#[test]
fn write_merges_boundary_bytes() {
    let mut bus = drive();
    bus.seek(SeekFrom::Start(1)).unwrap();
    let start = Some(vec![0xAAAAu16; 256]);
    let end = Some(vec![0xBBBBu16; 256]);
    let words = bus.write(&[0x11, 0x22], &None.or(start.clone()), &end);
    assert_eq!(words.len(), 256);
    assert_eq!(words[0], 0x11AA);
    assert_eq!(words[1], 0xBB22);
    assert_eq!(words[2], 0xBBBB);
    assert_eq!(bus.position(), 3);
}

#[test]
fn setup_registers() {
    let mut bus = drive();
    bus.seek(SeekFrom::Start(0x0ABC_DEF1 * 512 + 7)).unwrap();
    assert_eq!(bus.calc_lba(), 0x0ABC_DEF1);
    let setup = bus.before_read_write(3);
    assert_eq!(
        setup,
        vec![
            PortWrite { port: 0x1F6, value: 0xFA },
            PortWrite { port: 0x1F2, value: 3 },
            PortWrite { port: 0x1F3, value: 0xF1 },
            PortWrite { port: 0x1F4, value: 0xDE },
            PortWrite { port: 0x1F5, value: 0xBC },
        ]
    );
    assert_eq!(bus.setup_at(0, 1)[0], PortWrite { port: 0x1F6, value: 0xF0 });
}

#[test]
fn ports_and_commands() {
    let bus = drive();
    assert_eq!(bus.io_port(IoPort::Data), 0x1F0);
    assert_eq!(bus.io_port(IoPort::Status), 0x1F7);
    assert_eq!(bus.control_reset(), PortWrite { port: 0x3F6, value: 0 });
    assert_eq!(bus.send_command(Command::Read), PortWrite { port: 0x1F7, value: 0x20 });
    assert_eq!(Command::Write.code(), 0x30);
    assert_eq!(Command::CacheFlush.code(), 0xE7);
}

#[test]
fn status_bits() {
    assert!(StatusBits::Busy.is_set(0x80));
    assert!(!StatusBits::Busy.is_set(0x7F));
    assert!(StatusBits::RwReady.is_set(0x58));
    assert!(!StatusBits::RwReady.is_set(0x50));
}

#[test]
fn floating_bus_has_no_drive() {
    assert!(AtaDrive::new(0x1F0, 0x3F6, 0xFF).is_none());
    let d = AtaDrive::new(0x170, 0x376, 0x00).unwrap();
    assert_eq!(d.position(), 0);
    assert_eq!(d.io_port(IoPort::DriveSel), 0x176);
}

#[test]
fn alignment() {
    assert!(AtaDrive::is_sector_aligned(0));
    assert!(AtaDrive::is_sector_aligned(1536));
    assert!(!AtaDrive::is_sector_aligned(1537));
    let mut bus = drive();
    assert!(bus.pos_aligned());
    bus.seek(SeekFrom::Start(3)).unwrap();
    assert!(!bus.pos_aligned());
}

#[test]
fn sector_count_register_limit() {
    let mut bus = drive();
    assert_eq!(bus.checked_sector_count(255 * 512), Some(255));
    assert_eq!(bus.checked_sector_count(255 * 512 + 1), None);
    bus.seek(SeekFrom::Start(1)).unwrap();
    assert_eq!(bus.checked_sector_count(254 * 512), Some(255));
    assert_eq!(bus.checked_sector_count(255 * 512), None);
    assert_eq!(bus.checked_sector_count(3), Some(1));
}
