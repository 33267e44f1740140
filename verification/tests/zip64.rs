//! ZIP64 archives: the EOCD64 locator, the EOCD64 record, and the
//! sentinel-driven extended-information fields.

use parquet_viewer::MalformedKind;
use parquet_viewer::ViewerError;
use parquet_viewer::zip::extract_entry;
use parquet_viewer::zip::list_entries;

fn le16(v: u16) -> Vec<u8> {
    vec![(v & 0xff) as u8, (v >> 8) as u8]
}

fn le32(v: u32) -> Vec<u8> {
    let mut out = le16((v & 0xffff) as u16);
    out.extend(le16((v >> 16) as u16));
    out
}

fn le64(v: u64) -> Vec<u8> {
    let mut out = le32((v & 0xffff_ffff) as u32);
    out.extend(le32((v >> 32) as u32));
    out
}

fn local_header(name: &[u8], payload: &[u8]) -> Vec<u8> {
    let mut out = Vec::new();
    out.extend(le32(0x04034b50));
    out.extend(le16(45)); // version needed
    out.extend(le16(0));
    out.extend(le16(0)); // stored
    out.extend(le16(0));
    out.extend(le16(0));
    out.extend(le32(0));
    out.extend(le32(payload.len() as u32));
    out.extend(le32(payload.len() as u32));
    out.extend(le16(name.len() as u16));
    out.extend(le16(0));
    out.extend(name.to_vec());
    out.extend(payload.to_vec());
    out
}

/// One central directory record whose compressed size and offset fields
/// are chosen sentinels, with the real values in a ZIP64
/// extended-information block when a sentinel announces them.
fn cd_record(
    name: &[u8],
    csize32: u32,
    lho32: u32,
    payload_len: u32,
    extra: &[u8],
) -> Vec<u8> {
    let mut out = Vec::new();
    out.extend(le32(0x02014b50));
    out.extend(le16(45));
    out.extend(le16(45));
    out.extend(le16(0));
    out.extend(le16(0));
    out.extend(le16(0));
    out.extend(le16(0));
    out.extend(le32(0));
    out.extend(le32(csize32));
    out.extend(le32(payload_len)); // uncompressed size: never a sentinel here
    out.extend(le16(name.len() as u16));
    out.extend(le16(extra.len() as u16));
    out.extend(le16(0));
    out.extend(le16(0));
    out.extend(le16(0));
    out.extend(le32(0));
    out.extend(le32(lho32));
    out.extend(name.to_vec());
    out.extend(extra.to_vec());
    out
}

fn zip64_extra(fields: &[u64]) -> Vec<u8> {
    let mut out = Vec::new();
    out.extend(le16(0x0001));
    out.extend(le16((8 * fields.len()) as u16));
    for f in fields {
        out.extend(le64(*f));
    }
    out
}

fn eocd64_and_tail(cd_offset: u64, cd_size: u64, eocd64_offset: u64, entries: u64) -> Vec<u8> {
    let mut out = Vec::new();
    out.extend(le32(0x06064b50));
    out.extend(le64(44)); // size of the record that follows
    out.extend(le16(45));
    out.extend(le16(45));
    out.extend(le32(0));
    out.extend(le32(0));
    out.extend(le64(entries));
    out.extend(le64(entries));
    out.extend(le64(cd_size));
    out.extend(le64(cd_offset));
    // Locator
    out.extend(le32(0x07064b50));
    out.extend(le32(0));
    out.extend(le64(eocd64_offset));
    out.extend(le32(1));
    // EOCD with sentinel directory fields
    out.extend(le32(0x06054b50));
    out.extend(le16(0));
    out.extend(le16(0));
    out.extend(le16(entries as u16));
    out.extend(le16(entries as u16));
    out.extend(le32(0xffff_ffff));
    out.extend(le32(0xffff_ffff));
    out.extend(le16(0));
    out
}

#[test]
fn zip64_archive_lists_and_extracts() {
    let mut archive = Vec::new();
    let off_a = archive.len() as u64;
    archive.extend(local_header(b"first.txt", b"alpha"));
    let off_b = archive.len() as u64;
    archive.extend(local_header(b"second.txt", b"beta!"));
    let cd_offset = archive.len() as u64;
    // Both 32-bit fields are sentinels: the block holds the compressed
    // size, then the offset.
    archive.extend(cd_record(
        b"first.txt",
        0xffff_ffff,
        0xffff_ffff,
        5,
        &zip64_extra(&[5, off_a]),
    ));
    archive.extend(cd_record(
        b"second.txt",
        0xffff_ffff,
        0xffff_ffff,
        5,
        &zip64_extra(&[5, off_b]),
    ));
    let cd_size = archive.len() as u64 - cd_offset;
    let eocd64_offset = archive.len() as u64;
    archive.extend(eocd64_and_tail(cd_offset, cd_size, eocd64_offset, 2));

    let entries = list_entries(&archive).unwrap();
    assert_eq!(entries.len(), 2);
    assert_eq!(entries[0].name, "first.txt");
    assert_eq!(entries[0].local_header_offset, off_a);
    assert_eq!(entries[0].compressed_size, 5);
    assert_eq!(entries[1].local_header_offset, off_b);
    assert_eq!(extract_entry(&archive, &entries[0]).unwrap(), b"alpha");
    assert_eq!(extract_entry(&archive, &entries[1]).unwrap(), b"beta!");
}

#[test]
fn zip64_pairs_fields_by_sentinel() {
    // Only the offset is a sentinel: the extended-information block holds
    // the offset alone, and it must not be read as a size.
    let mut archive = Vec::new();
    let off = archive.len() as u64;
    archive.extend(local_header(b"only.txt", b"gamma"));
    let cd_offset = archive.len() as u64;
    archive.extend(cd_record(b"only.txt", 5, 0xffff_ffff, 5, &zip64_extra(&[off])));
    let cd_size = archive.len() as u64 - cd_offset;
    let eocd64_offset = archive.len() as u64;
    archive.extend(eocd64_and_tail(cd_offset, cd_size, eocd64_offset, 1));

    let entries = list_entries(&archive).unwrap();
    assert_eq!(entries.len(), 1);
    assert_eq!(entries[0].compressed_size, 5);
    assert_eq!(entries[0].local_header_offset, off);
    assert_eq!(extract_entry(&archive, &entries[0]).unwrap(), b"gamma");
}

#[test]
fn zip64_missing_block_is_malformed() {
    let mut archive = Vec::new();
    archive.extend(local_header(b"x", b"delta"));
    let cd_offset = archive.len() as u64;
    // A sentinel without any extended-information block.
    archive.extend(cd_record(b"x", 0xffff_ffff, 0, 5, &[]));
    let cd_size = archive.len() as u64 - cd_offset;
    let eocd64_offset = archive.len() as u64;
    archive.extend(eocd64_and_tail(cd_offset, cd_size, eocd64_offset, 1));

    let err = list_entries(&archive).unwrap_err();
    assert!(matches!(
        err,
        ViewerError::MalformedArchive(MalformedKind::InconsistentZip64Sentinels)
    ));
}

#[test]
fn zip64_bad_record_signature_is_reported() {
    let mut archive = Vec::new();
    archive.extend(local_header(b"x", b"delta"));
    let cd_offset = archive.len() as u64;
    archive.extend(cd_record(b"x", 5, 0, 5, &[]));
    let cd_size = archive.len() as u64 - cd_offset;
    let eocd64_offset = archive.len() as u64;
    let mut tail = eocd64_and_tail(cd_offset, cd_size, eocd64_offset, 1);
    tail[0] = 0x99; // corrupt the EOCD64 signature
    archive.extend(tail);

    let err = list_entries(&archive).unwrap_err();
    assert!(matches!(
        err,
        ViewerError::MalformedArchive(MalformedKind::BadEocd64Signature)
    ));
}
