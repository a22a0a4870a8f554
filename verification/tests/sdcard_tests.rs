use cyders::peripherals::sdcard::{choose_image_size, SdCard, SdError};
use memmap2::MmapMut;

fn card(size: usize) -> SdCard {
    let mmap = MmapMut::map_anon(size).unwrap();
    SdCard::from_mapped(mmap, "test_sdcard.img".to_string())
}

#[test]
fn test_sdcard_create() {
    let size = 1024 * 1024; // 1 MB

    let sdcard = card(size);
    assert_eq!(sdcard.size_bytes(), size as u64);
    assert_eq!(sdcard.size_sectors(), (size / 512) as u64);
}

#[test]
fn test_sdcard_read_write() {
    let size = 1024 * 1024;

    let mut sdcard = card(size);

    // Write a sector
    let mut write_data = [0u8; 512];
    write_data[0] = 0xAA;
    write_data[511] = 0x55;
    sdcard.write_sector(0, &write_data).unwrap();

    // Read it back
    let mut read_data = [0u8; 512];
    sdcard.read_sector(0, &mut read_data).unwrap();

    assert_eq!(read_data[0], 0xAA);
    assert_eq!(read_data[511], 0x55);
}

#[test]
fn sdcard_errors() {
    let mut sd = card(4 * 512);
    let mut small = [0u8; 100];
    assert!(matches!(sd.read_sector(0, &mut small), Err(SdError::BufferSize)));
    assert!(matches!(sd.write_sector(0, &small), Err(SdError::BufferSize)));
    let mut buf = [1u8; 512];
    assert!(matches!(sd.read_sector(4, &mut buf), Err(SdError::ReadBeyondEnd)));
    assert_eq!(buf, [1u8; 512]);
    assert!(matches!(sd.write_sector(4, &buf), Err(SdError::WriteBeyondEnd)));
    assert!(matches!(sd.read_sectors(0, 2, &mut small), Err(SdError::BufferTooSmall)));
    assert!(matches!(sd.write_sectors(0, 2, &small), Err(SdError::BufferTooSmall)));
    assert!(matches!(sd.read_sector(u32::MAX, &mut buf), Err(SdError::ReadBeyondEnd)));
    assert_eq!(SdError::BufferSize.message(), "Buffer must be 512 bytes");
    assert_eq!(SdError::BufferTooSmall.message(), "Buffer too small");
}

#[test]
fn sdcard_multi_sector_round_trip() {
    let mut sd = card(4 * 512);
    let data: Vec<u8> = (0..3 * 512).map(|i| (i % 251) as u8).collect();
    sd.write_sectors(1, 3, &data).unwrap();
    let mut back = vec![0u8; 3 * 512 + 10];
    sd.read_sectors(1, 3, &mut back).unwrap();
    assert_eq!(&back[..3 * 512], &data[..]);
    assert_eq!(&back[3 * 512..], &[0u8; 10]);
    // sector 0 untouched
    let mut s0 = [9u8; 512];
    sd.read_sector(0, &mut s0).unwrap();
    assert_eq!(s0, [0u8; 512]);
    assert!(sd.flush().is_ok());
}

#[test]
fn sdcard_partial_transfer_stops_at_end() {
    let mut sd = card(3 * 512);
    let data = vec![0x5Au8; 3 * 512];
    // sectors 1 and 2 exist, 3 does not: two are written, then the error
    assert!(matches!(sd.write_sectors(1, 3, &data), Err(SdError::WriteBeyondEnd)));
    let mut back = vec![0xFFu8; 3 * 512];
    assert!(matches!(sd.read_sectors(1, 3, &mut back), Err(SdError::ReadBeyondEnd)));
    assert!(back[..2 * 512].iter().all(|&b| b == 0x5A));
    assert!(back[2 * 512..].iter().all(|&b| b == 0xFF));
}

#[test]
fn sdcard_image_size_choice() {
    assert_eq!(choose_image_size(0, 4096), 4096);
    assert_eq!(choose_image_size(1024, 4096), 1024);
    let sd = card(512);
    assert_eq!(sd.path(), "test_sdcard.img");
    assert_eq!(sd.size_sectors(), 1);
}
