//! Random-access ZIP reader.
//!
//! The reader operates on plain byte buffers.  Callers that only have
//! range-read access to an archive (a remote endpoint honouring `Range`
//! headers) fetch the windows that the planning helpers describe and feed
//! them to the same parsing functions, so one set of contracts covers both
//! the whole-buffer and the ranged path.

use vstd::prelude::*;

use crate::MalformedKind;
use crate::ViewerError;

verus! {

/// End-of-central-directory signature.
pub const EOCD_SIG: u32 = 0x06054b50;

/// ZIP64 end-of-central-directory signature.
pub const EOCD64_SIG: u32 = 0x06064b50;

/// ZIP64 end-of-central-directory locator signature.
pub const EOCD64_LOCATOR_SIG: u32 = 0x07064b50;

/// Central directory file header signature.
pub const CENTRAL_FILE_HEADER_SIG: u32 = 0x02014b50;

/// Local file header signature.
pub const LOCAL_FILE_HEADER_SIG: u32 = 0x04034b50;

/// The EOCD record is at most 22 fixed bytes plus a 65 535-byte comment,
/// so its signature always sits within the trailing 65 557 bytes.
pub const EOCD_TAIL_WINDOW: u64 = 65557;

// ---------------------------------------------------------------------------
// Little-endian integer fields
// ---------------------------------------------------------------------------

/// The little-endian 16-bit value stored at byte offset `i`.
pub open spec fn le16(s: Seq<u8>, i: int) -> int {
    s[i] + 0x100 * s[i + 1]
}

/// The little-endian 32-bit value stored at byte offset `i`.
pub open spec fn le32(s: Seq<u8>, i: int) -> int {
    le16(s, i) + 0x10000 * le16(s, i + 2)
}

/// The little-endian 64-bit value stored at byte offset `i`.
pub open spec fn le64(s: Seq<u8>, i: int) -> int {
    le32(s, i) + 0x1_0000_0000 * le32(s, i + 4)
}

pub fn read_u16_le(data: &Vec<u8>, pos: usize) -> (r: u16)
    requires
        pos + 2 <= data.len(),
    ensures
        r == le16(data@, pos as int),
{
    let b0 = data[pos] as u16;
    let b1 = data[pos + 1] as u16;
    b0 + 0x100 * b1
}

pub fn read_u32_le(data: &Vec<u8>, pos: usize) -> (r: u32)
    requires
        pos + 4 <= data.len(),
    ensures
        r == le32(data@, pos as int),
{
    let lo = read_u16_le(data, pos) as u32;
    let hi = read_u16_le(data, pos + 2) as u32;
    lo + 0x10000 * hi
}

pub fn read_u64_le(data: &Vec<u8>, pos: usize) -> (r: u64)
    requires
        pos + 8 <= data.len(),
    ensures
        r == le64(data@, pos as int),
{
    let lo = read_u32_le(data, pos) as u64;
    let hi = read_u32_le(data, pos + 4) as u64;
    lo + 0x1_0000_0000 * hi
}

// ---------------------------------------------------------------------------
// EOCD scan
// ---------------------------------------------------------------------------

/// The latest offset `j <= i` whose four bytes spell the EOCD signature,
/// or `None` when no such offset exists.
pub open spec fn spec_find_eocd_from(s: Seq<u8>, i: int) -> Option<int>
    decreases i,
{
    if i < 0 {
        None
    } else if le32(s, i) == EOCD_SIG {
        Some(i)
    } else if i == 0 {
        None
    } else {
        spec_find_eocd_from(s, i - 1)
    }
}

/// Where the end-of-central-directory record starts inside `s`: the last
/// offset that both carries the signature and leaves room for the 22-byte
/// fixed part.
pub open spec fn spec_find_eocd(s: Seq<u8>) -> Option<int> {
    if s.len() < 22 {
        None
    } else {
        spec_find_eocd_from(s, s.len() - 22)
    }
}

/// Scan a buffer from the end toward the beginning for the EOCD signature.
pub fn find_eocd(data: &Vec<u8>) -> (r: Option<usize>)
    ensures
        match r {
            Some(i) => i + 22 <= data.len() && spec_find_eocd(data@) == Some(i as int),
            None => spec_find_eocd(data@) is None,
        },
{
    if data.len() < 22 {
        return None;
    }
    let mut i: usize = data.len() - 22;
    loop
        invariant
            i + 22 <= data.len(),
            spec_find_eocd(data@) == spec_find_eocd_from(data@, i as int),
        decreases i,
    {
        if read_u32_le(data, i) == EOCD_SIG {
            return Some(i);
        }
        if i == 0 {
            return None;
        }
        i = i - 1;
    }
}

/// The scan cannot miss: whenever the signature occurs at an offset that
/// leaves room for the fixed EOCD part, the scan reports an occurrence, and
/// reports the latest one.  Trailer bytes after the record therefore do not
/// hide it.
pub proof fn lemma_eocd_scan_finds(s: Seq<u8>, j: int)
    requires
        0 <= j,
        j + 22 <= s.len(),
        le32(s, j) == EOCD_SIG,
    ensures
        spec_find_eocd(s) is Some,
        j <= spec_find_eocd(s).unwrap(),
{
    lemma_eocd_scan_finds_from(s, j, s.len() - 22);
}

proof fn lemma_eocd_scan_finds_from(s: Seq<u8>, j: int, i: int)
    requires
        0 <= j <= i,
        le32(s, j) == EOCD_SIG,
    ensures
        spec_find_eocd_from(s, i) is Some,
        j <= spec_find_eocd_from(s, i).unwrap(),
    decreases i,
{
    if le32(s, i) == EOCD_SIG {
    } else {
        // `i` carries no signature, so `i != j` and the scan continues below.
        lemma_eocd_scan_finds_from(s, j, i - 1);
    }
}

// ---------------------------------------------------------------------------
// Archive format detection
// ---------------------------------------------------------------------------

/// How the archive locates its central directory.
pub enum ZipFormat {
    /// A classic archive: the EOCD record itself holds the central
    /// directory's offset and size.
    Regular { cd_offset: u64, cd_size: u64 },
    /// A ZIP64 archive: a locator 20 bytes before the EOCD points at the
    /// EOCD64 record, which is authoritative.
    Zip64 { eocd64_offset: u64 },
}

/// What `check_zip_format` reads out of a tail window, or `None` when the
/// window holds no EOCD signature.
pub open spec fn spec_check_zip_format(s: Seq<u8>) -> Option<ZipFormat> {
    match spec_find_eocd(s) {
        None => None,
        Some(p) => {
            if p >= 20 && le32(s, p - 20) == EOCD64_LOCATOR_SIG {
                Some(ZipFormat::Zip64 { eocd64_offset: le64(s, p - 12) as u64 })
            } else {
                Some(
                    ZipFormat::Regular {
                        cd_offset: le32(s, p + 16) as u64,
                        cd_size: le32(s, p + 12) as u64,
                    },
                )
            }
        },
    }
}

/// Decide whether a tail window describes a regular or a ZIP64 archive and
/// pull the central-directory location (regular) or the EOCD64 offset
/// (ZIP64) out of it.
///
/// The window is scanned backwards for the EOCD signature; if the four
/// bytes 20 before it spell the EOCD64 locator signature, the archive is
/// ZIP64 and the locator's 8-byte absolute offset is returned.
pub fn check_zip_format(tail: &Vec<u8>) -> (r: Result<ZipFormat, ViewerError>)
    ensures
        match r {
            Ok(f) => spec_check_zip_format(tail@) == Some(f),
            Err(e) => spec_check_zip_format(tail@) is None && e matches ViewerError::MalformedArchive(
                MalformedKind::EocdNotFound,
            ),
        },
{
    let eocd_pos = match find_eocd(tail) {
        Some(p) => p,
        None => {
            return Err(ViewerError::MalformedArchive(MalformedKind::EocdNotFound));
        },
    };
    if eocd_pos >= 20 {
        let locator_pos = eocd_pos - 20;
        if read_u32_le(tail, locator_pos) == EOCD64_LOCATOR_SIG {
            // Locator layout: signature (4), disk number (4), EOCD64
            // absolute offset (8), total disks (4).
            let eocd64_offset = read_u64_le(tail, locator_pos + 8);
            return Ok(ZipFormat::Zip64 { eocd64_offset });
        }
    }
    // EOCD layout: signature (4), four u16 disk/entry counts (8),
    // central directory size (4), central directory offset (4).
    let cd_size = read_u32_le(tail, eocd_pos + 12) as u64;
    let cd_offset = read_u32_le(tail, eocd_pos + 16) as u64;
    Ok(ZipFormat::Regular { cd_offset, cd_size })
}

// ---------------------------------------------------------------------------
// ZIP64 end-of-central-directory record
// ---------------------------------------------------------------------------

/// What an EOCD64 record starting at `pos` holds: `(cd_offset, cd_size)`.
pub open spec fn spec_parse_eocd64(s: Seq<u8>, pos: int) -> Result<(u64, u64), MalformedKind> {
    if pos < 0 || pos + 56 > s.len() {
        Err(MalformedKind::TruncatedEocd64)
    } else if le32(s, pos) != EOCD64_SIG {
        Err(MalformedKind::BadEocd64Signature)
    } else {
        Ok((le64(s, pos + 48) as u64, le64(s, pos + 40) as u64))
    }
}

/// Parse the ZIP64 end-of-central-directory record at `pos`, returning the
/// central directory's offset and size.
///
/// Record layout: signature (4), record size (8), version made by (2),
/// version needed (2), disk number (4), disk with the directory (4),
/// entries on this disk (8), total entries (8), directory size (8),
/// directory offset (8).
pub fn parse_eocd64(data: &Vec<u8>, pos: usize) -> (r: Result<(u64, u64), ViewerError>)
    ensures
        match r {
            Ok(v) => spec_parse_eocd64(data@, pos as int) == Ok::<(u64, u64), MalformedKind>(v),
            Err(e) => spec_parse_eocd64(data@, pos as int) matches Err(k) && e
                == ViewerError::MalformedArchive(k),
        },
{
    let n = data.len();
    if n < 56 || pos > n - 56 {
        return Err(ViewerError::MalformedArchive(MalformedKind::TruncatedEocd64));
    }
    if read_u32_le(data, pos) != EOCD64_SIG {
        return Err(ViewerError::MalformedArchive(MalformedKind::BadEocd64Signature));
    }
    let cd_size = read_u64_le(data, pos + 40);
    let cd_offset = read_u64_le(data, pos + 48);
    Ok((cd_offset, cd_size))
}

// ---------------------------------------------------------------------------
// Local file header
// ---------------------------------------------------------------------------

/// What a local file header starting at `pos` holds:
/// `(filename_len, extra_len, compression_method)`.
pub open spec fn spec_parse_local_header(s: Seq<u8>, pos: int) -> Result<
    (u16, u16, u16),
    MalformedKind,
> {
    if pos < 0 || pos + 30 > s.len() {
        Err(MalformedKind::TruncatedLocalHeader)
    } else if le32(s, pos) != LOCAL_FILE_HEADER_SIG {
        Err(MalformedKind::BadLocalHeaderSignature)
    } else {
        Ok(((le16(s, pos + 26) as u16), (le16(s, pos + 28) as u16), (le16(s, pos + 8) as u16)))
    }
}

fn parse_local_header_at(data: &Vec<u8>, pos: usize) -> (r: Result<(u16, u16, u16), ViewerError>)
    ensures
        match r {
            Ok(v) => spec_parse_local_header(data@, pos as int) == Ok::<
                (u16, u16, u16),
                MalformedKind,
            >(v),
            Err(e) => spec_parse_local_header(data@, pos as int) matches Err(k) && e
                == ViewerError::MalformedArchive(k),
        },
{
    let n = data.len();
    if n < 30 || pos > n - 30 {
        return Err(ViewerError::MalformedArchive(MalformedKind::TruncatedLocalHeader));
    }
    if read_u32_le(data, pos) != LOCAL_FILE_HEADER_SIG {
        return Err(ViewerError::MalformedArchive(MalformedKind::BadLocalHeaderSignature));
    }
    let filename_len = read_u16_le(data, pos + 26);
    let extra_len = read_u16_le(data, pos + 28);
    let method = read_u16_le(data, pos + 8);
    Ok((filename_len, extra_len, method))
}

/// Parse the 30-byte local file header at the start of `data` and return
/// the lengths of the filename and extra fields that follow it.
pub fn parse_local_file_header(data: &Vec<u8>) -> (r: Result<(u64, u64), ViewerError>)
    ensures
        match r {
            Ok(v) => spec_parse_local_header(data@, 0) matches Ok(h) && v == (
                h.0 as u64,
                h.1 as u64,
            ),
            Err(e) => spec_parse_local_header(data@, 0) matches Err(k) && e
                == ViewerError::MalformedArchive(k),
        },
{
    let (filename_len, extra_len, _method) = parse_local_header_at(data, 0)?;
    Ok((filename_len as u64, extra_len as u64))
}

// ---------------------------------------------------------------------------
// ZIP64 extended-information extra field
// ---------------------------------------------------------------------------

/// The payload of the extra-field block with header id `0x0001`, scanning
/// from `pos`; `None` when no complete block with that id exists.
pub open spec fn spec_zip64_payload(extra: Seq<u8>, pos: int) -> Option<Seq<u8>>
    decreases extra.len() - pos,
{
    if pos < 0 || pos + 4 > extra.len() {
        None
    } else {
        let id = le16(extra, pos);
        let dsize = le16(extra, pos + 2);
        if pos + 4 + dsize > extra.len() {
            None
        } else if id == 1 {
            Some(extra.subrange(pos + 4, pos + 4 + dsize))
        } else {
            spec_zip64_payload(extra, pos + 4 + dsize)
        }
    }
}

/// The 64-bit values present in a ZIP64 extended-information payload.
///
/// The payload lists `uncompressed_size`, `compressed_size` and
/// `local_header_offset` in that fixed order, but holds only those fields
/// whose 32-bit counterpart in the central directory was the sentinel
/// `0xFFFFFFFF`; the three flags say which.  The result pairs the
/// compressed size and the offset, each present iff its flag is set, or is
/// `None` when the payload is too short for the announced fields.
pub open spec fn spec_zip64_values(
    payload: Seq<u8>,
    uncompressed_sentinel: bool,
    compressed_sentinel: bool,
    offset_sentinel: bool,
) -> Option<(Option<u64>, Option<u64>)> {
    let c_off: int = if uncompressed_sentinel {
        8
    } else {
        0
    };
    let o_off: int = c_off + if compressed_sentinel {
        8int
    } else {
        0
    };
    let need: int = o_off + if offset_sentinel {
        8int
    } else {
        0
    };
    if payload.len() < need {
        None
    } else {
        Some(
            (
                if compressed_sentinel {
                    Some(le64(payload, c_off) as u64)
                } else {
                    None
                },
                if offset_sentinel {
                    Some(le64(payload, o_off) as u64)
                } else {
                    None
                },
            ),
        )
    }
}

/// Find the ZIP64 extended-information block (header id `0x0001`) in an
/// entry's extra field and read the compressed size and local-header
/// offset out of it, each present iff the corresponding regular
/// central-directory field held the `0xFFFFFFFF` sentinel.
pub fn parse_zip64_extra_field(
    extra: &Vec<u8>,
    uncompressed_sentinel: bool,
    compressed_sentinel: bool,
    offset_sentinel: bool,
) -> (r: Option<(Option<u64>, Option<u64>)>)
    ensures
        r == match spec_zip64_payload(extra@, 0) {
            None => None::<(Option<u64>, Option<u64>)>,
            Some(p) => spec_zip64_values(
                p,
                uncompressed_sentinel,
                compressed_sentinel,
                offset_sentinel,
            ),
        },
{
    let n = extra.len();
    let mut pos: usize = 0;
    loop
        invariant
            pos <= n,
            n == extra.len(),
            spec_zip64_payload(extra@, 0) == spec_zip64_payload(extra@, pos as int),
        decreases n - pos,
    {
        if pos >= n || n - pos < 4 {
            return None;
        }
        let id = read_u16_le(extra, pos);
        let dsize = read_u16_le(extra, pos + 2) as usize;
        if n - pos - 4 < dsize {
            return None;
        }
        if id == 1 {
            // The block payload is extra[pos + 4 .. pos + 4 + dsize].
            let base = pos + 4;
            let c_off: usize = if uncompressed_sentinel {
                8
            } else {
                0
            };
            let o_off: usize = c_off + if compressed_sentinel {
                8
            } else {
                0
            };
            let need: usize = o_off + if offset_sentinel {
                8
            } else {
                0
            };
            proof {
                let p = extra@.subrange(base as int, base as int + dsize as int);
                assert(spec_zip64_payload(extra@, pos as int) == Some(p));
                assert forall|k: int| 0 <= k < dsize as int implies p[k] == extra@[base as int
                    + k] by {}
                if dsize >= need {
                    if compressed_sentinel {
                        assert(le64(p, c_off as int) == le64(extra@, base as int + c_off as int));
                    }
                    if offset_sentinel {
                        assert(le64(p, o_off as int) == le64(extra@, base as int + o_off as int));
                    }
                }
            }
            if dsize < need {
                return None;
            }
            let compressed_size = if compressed_sentinel {
                Some(read_u64_le(extra, base + c_off))
            } else {
                None
            };
            let offset = if offset_sentinel {
                Some(read_u64_le(extra, base + o_off))
            } else {
                None
            };
            return Some((compressed_size, offset));
        }
        pos = pos + 4 + dsize;
    }
}

// ---------------------------------------------------------------------------
// Central directory
// ---------------------------------------------------------------------------

/// What decoding an entry name's bytes as UTF-8 with lossy replacement
/// yields; a function of the bytes alone.
pub uninterp spec fn utf8_lossy_of(bytes: Seq<u8>) -> Seq<char>;

/// Relies on `String::from_utf8_lossy`: decodes UTF-8, substituting the
/// replacement character for invalid sequences.
#[verifier::external_body]
fn utf8_lossy(bytes: &Vec<u8>) -> (r: String)
    ensures
        r@ == utf8_lossy_of(bytes@),
{
    String::from_utf8_lossy(bytes.as_slice()).to_string()
}

/// The mathematical image of one central directory entry.
pub ghost struct SpecEntry {
    /// The stored name, decoded as UTF-8 with lossy replacement.
    pub name: Seq<char>,
    /// The stored name, byte for byte.
    pub name_bytes: Seq<u8>,
    /// Where the entry's local file header starts in the archive.
    pub local_header_offset: u64,
    /// How many bytes the compressed payload occupies.
    pub compressed_size: u64,
}

/// One entry of an archive's central directory, as `list_entries` reports
/// it.
#[derive(Debug)]
pub struct CentralDirectoryEntry {
    /// The stored name, decoded as UTF-8 with lossy replacement.
    pub name: String,
    /// The stored name, byte for byte; prefix filtering matches on these.
    pub name_bytes: Vec<u8>,
    /// Where the entry's local file header starts in the archive.
    pub local_header_offset: u64,
    /// How many bytes the compressed payload occupies.
    pub compressed_size: u64,
}

impl View for CentralDirectoryEntry {
    type V = SpecEntry;

    open spec fn view(&self) -> SpecEntry {
        SpecEntry {
            name: self.name@,
            name_bytes: self.name_bytes@,
            local_header_offset: self.local_header_offset,
            compressed_size: self.compressed_size,
        }
    }
}

impl Clone for CentralDirectoryEntry {
    fn clone(&self) -> (r: Self)
        ensures
            r@ == self@,
    {
        CentralDirectoryEntry {
            name: self.name.clone(),
            name_bytes: self.name_bytes.clone(),
            local_header_offset: self.local_header_offset,
            compressed_size: self.compressed_size,
        }
    }
}

/// The mathematical image of a sequence of entries.
pub open spec fn entries_view(es: Seq<CentralDirectoryEntry>) -> Seq<SpecEntry> {
    es.map_values(|e: CentralDirectoryEntry| e@)
}

/// An entry's true compressed size and local-header offset: the 32-bit
/// central-directory fields, unless either is the `0xFFFFFFFF` sentinel,
/// in which case the missing values come from the ZIP64 extended-info
/// block of the extra field.
pub open spec fn spec_resolve_entry_values(
    extra: Seq<u8>,
    csize32: u32,
    lho32: u32,
    usize32: u32,
) -> Result<(u64, u64), MalformedKind> {
    if csize32 != 0xFFFFFFFF && lho32 != 0xFFFFFFFF {
        Ok((csize32 as u64, lho32 as u64))
    } else {
        match spec_zip64_payload(extra, 0) {
            None => Err(MalformedKind::InconsistentZip64Sentinels),
            Some(p) => match spec_zip64_values(
                p,
                usize32 == 0xFFFFFFFF,
                csize32 == 0xFFFFFFFF,
                lho32 == 0xFFFFFFFF,
            ) {
                None => Err(MalformedKind::InconsistentZip64Sentinels),
                Some(v) => Ok(
                    (
                        match v.0 {
                            Some(c) => c,
                            None => csize32 as u64,
                        },
                        match v.1 {
                            Some(o) => o,
                            None => lho32 as u64,
                        },
                    ),
                ),
            },
        }
    }
}

fn resolve_entry_values(extra: &Vec<u8>, csize32: u32, lho32: u32, usize32: u32) -> (r: Result<
    (u64, u64),
    ViewerError,
>)
    ensures
        match r {
            Ok(v) => spec_resolve_entry_values(extra@, csize32, lho32, usize32) == Ok::<
                (u64, u64),
                MalformedKind,
            >(v),
            Err(e) => spec_resolve_entry_values(extra@, csize32, lho32, usize32) matches Err(k)
                && e == ViewerError::MalformedArchive(k),
        },
{
    if csize32 != 0xFFFFFFFF && lho32 != 0xFFFFFFFF {
        return Ok((csize32 as u64, lho32 as u64));
    }
    match parse_zip64_extra_field(
        extra,
        usize32 == 0xFFFFFFFF,
        csize32 == 0xFFFFFFFF,
        lho32 == 0xFFFFFFFF,
    ) {
        None => Err(ViewerError::MalformedArchive(MalformedKind::InconsistentZip64Sentinels)),
        Some((c, o)) => Ok(
            (
                match c {
                    Some(c) => c,
                    None => csize32 as u64,
                },
                match o {
                    Some(o) => o,
                    None => lho32 as u64,
                },
            ),
        ),
    }
}

/// The entries encoded by a central directory buffer, starting at `pos`.
///
/// A record begins with the central-file-header signature; any other
/// four bytes end the walk cleanly, which tolerates trailing padding.  A
/// record that announces more name, extra or comment bytes than remain is
/// a truncated directory.
pub open spec fn spec_parse_cd(s: Seq<u8>, pos: int) -> Result<Seq<SpecEntry>, MalformedKind>
    decreases s.len() - pos,
{
    if pos < 0 || pos + 46 > s.len() || le32(s, pos) != CENTRAL_FILE_HEADER_SIG {
        Ok(Seq::empty())
    } else {
        let csize32 = le32(s, pos + 20) as u32;
        let usize32 = le32(s, pos + 24) as u32;
        let fl = le16(s, pos + 28);
        let el = le16(s, pos + 30);
        let cl = le16(s, pos + 32);
        let lho32 = le32(s, pos + 42) as u32;
        let next = pos + 46 + fl + el + cl;
        if next > s.len() {
            Err(MalformedKind::TruncatedCentralDirectory)
        } else {
            let name_bytes = s.subrange(pos + 46, pos + 46 + fl);
            let extra = s.subrange(pos + 46 + fl, pos + 46 + fl + el);
            match spec_resolve_entry_values(extra, csize32, lho32, usize32) {
                Err(k) => Err(k),
                Ok(v) => match spec_parse_cd(s, next) {
                    Err(k) => Err(k),
                    Ok(rest) => Ok(
                        seq![
                            SpecEntry {
                                name: utf8_lossy_of(name_bytes),
                                name_bytes: name_bytes,
                                local_header_offset: v.1,
                                compressed_size: v.0,
                            },
                        ] + rest,
                    ),
                },
            }
        }
    }
}

/// Walk a central directory buffer and collect its entries in order.
pub fn parse_central_directory(cd: &Vec<u8>) -> (r: Result<Vec<CentralDirectoryEntry>, ViewerError>)
    ensures
        match r {
            Ok(es) => spec_parse_cd(cd@, 0) == Ok::<Seq<SpecEntry>, MalformedKind>(
                entries_view(es@),
            ),
            Err(e) => spec_parse_cd(cd@, 0) matches Err(k) && e == ViewerError::MalformedArchive(k),
        },
{
    let n = cd.len();
    let mut entries: Vec<CentralDirectoryEntry> = Vec::new();
    let mut pos: usize = 0;
    loop
        invariant
            pos <= n,
            n == cd.len(),
            match spec_parse_cd(cd@, pos as int) {
                Ok(rest) => spec_parse_cd(cd@, 0) == Ok::<Seq<SpecEntry>, MalformedKind>(
                    entries_view(entries@) + rest,
                ),
                Err(k) => spec_parse_cd(cd@, 0) == Err::<Seq<SpecEntry>, MalformedKind>(k),
            },
        decreases n - pos,
    {
        if n - pos < 46 {
            proof {
                assert(entries_view(entries@) + Seq::<SpecEntry>::empty() =~= entries_view(
                    entries@,
                ));
            }
            return Ok(entries);
        }
        if read_u32_le(cd, pos) != CENTRAL_FILE_HEADER_SIG {
            proof {
                assert(entries_view(entries@) + Seq::<SpecEntry>::empty() =~= entries_view(
                    entries@,
                ));
            }
            return Ok(entries);
        }
        // Fixed 46-byte record: signature (4), versions (4), flags (2),
        // method (2), time and date (4), crc (4), compressed size (4),
        // uncompressed size (4), name length (2), extra length (2),
        // comment length (2), disk (2), attributes (6), offset (4).
        let csize32 = read_u32_le(cd, pos + 20);
        let usize32 = read_u32_le(cd, pos + 24);
        let fl = read_u16_le(cd, pos + 28) as usize;
        let el = read_u16_le(cd, pos + 30) as usize;
        let cl = read_u16_le(cd, pos + 32) as usize;
        let lho32 = read_u32_le(cd, pos + 42);
        let rem = n - pos - 46;
        if fl > rem || el > rem - fl || cl > rem - fl - el {
            return Err(ViewerError::MalformedArchive(MalformedKind::TruncatedCentralDirectory));
        }
        let name_vec = copy_range(cd, pos + 46, fl);
        let extra_vec = copy_range(cd, pos + 46 + fl, el);
        let name = utf8_lossy(&name_vec);
        let (compressed_size, local_header_offset) = match resolve_entry_values(
            &extra_vec,
            csize32,
            lho32,
            usize32,
        ) {
            Ok(v) => v,
            Err(e) => {
                return Err(e);
            },
        };
        let ghost old_entries = entries@;
        let entry = CentralDirectoryEntry { name, name_bytes: name_vec, local_header_offset, compressed_size };
        let ghost entry_spec = entry@;
        entries.push(entry);
        proof {
            let rest = spec_parse_cd(cd@, pos + 46 + fl + el + cl);
            assert(spec_parse_cd(cd@, pos as int) == match rest {
                Err(k) => Err::<Seq<SpecEntry>, MalformedKind>(k),
                Ok(tail_entries) => Ok::<Seq<SpecEntry>, MalformedKind>(
                    seq![entry_spec] + tail_entries,
                ),
            });
            assert(entries_view(entries@) =~= entries_view(old_entries).push(entry_spec));
            if rest is Ok {
                assert(entries_view(old_entries) + (seq![entry_spec] + rest.unwrap())
                    =~= entries_view(entries@) + rest.unwrap());
            }
        }
        pos = pos + 46 + fl + el + cl;
    }
}

// ---------------------------------------------------------------------------
// Entry decompression
// ---------------------------------------------------------------------------

/// What inflating a raw DEFLATE stream yields, or `None` when the stream
/// is corrupt.  The stream format pins the result down, so this is a
/// function of the input bytes alone.
pub uninterp spec fn inflate_of(s: Seq<u8>) -> Option<Seq<u8>>;

/// Relies on `flate2::read::DeflateDecoder` over an in-memory slice:
/// reading it to the end yields the decompressed form of a raw DEFLATE
/// stream (no zlib wrapper) and fails on a corrupt stream.
#[verifier::external_body]
fn inflate(data: &Vec<u8>) -> (r: Option<Vec<u8>>)
    ensures
        match r {
            Some(v) => inflate_of(data@) == Some(v@),
            None => inflate_of(data@) is None,
        },
{
    let mut decoder = flate2::read::DeflateDecoder::new(data.as_slice());
    let mut out: Vec<u8> = Vec::new();
    match std::io::Read::read_to_end(&mut decoder, &mut out) {
        Ok(_) => Some(out),
        Err(_) => None,
    }
}

/// Copy `data[start .. start + len]` into a fresh buffer.
fn copy_range(data: &Vec<u8>, start: usize, len: usize) -> (r: Vec<u8>)
    requires
        start + len <= data.len(),
    ensures
        r@ == data@.subrange(start as int, start as int + len as int),
{
    let mut out: Vec<u8> = Vec::new();
    let mut i: usize = 0;
    while i < len
        invariant
            i <= len,
            start + len <= data.len(),
            out@ == data@.subrange(start as int, start as int + i as int),
        decreases len - i,
    {
        out.push(data[start + i]);
        proof {
            assert(out@ =~= data@.subrange(start as int, start as int + i as int + 1));
        }
        i = i + 1;
    }
    out
}

/// What decompressing a complete entry buffer (local file header, name and
/// extra fields, then the compressed payload) yields.
pub open spec fn spec_decompress(s: Seq<u8>) -> Result<Seq<u8>, ViewerError> {
    match spec_parse_local_header(s, 0) {
        Err(k) => Err(ViewerError::MalformedArchive(k)),
        Ok(h) => {
            let start = 30 + h.0 + h.1;
            if start > s.len() {
                Err(ViewerError::MalformedArchive(MalformedKind::TruncatedLocalHeader))
            } else {
                spec_decode_payload(s.subrange(start as int, s.len() as int), h.2)
            }
        },
    }
}

/// What decoding a compressed payload with a given method yields: method 0
/// is the identity, method 8 is raw DEFLATE, anything else is refused.
pub open spec fn spec_decode_payload(payload: Seq<u8>, method: u16) -> Result<Seq<u8>, ViewerError> {
    if method == 0 {
        Ok(payload)
    } else if method == 8 {
        match inflate_of(payload) {
            Some(out) => Ok(out),
            None => Err(ViewerError::MalformedArchive(MalformedKind::CorruptDeflateStream)),
        }
    } else {
        Err(ViewerError::UnsupportedCompression(method))
    }
}

/// Decode an already-extracted compressed payload.
pub fn decode_payload(payload: Vec<u8>, method: u16) -> (r: Result<Vec<u8>, ViewerError>)
    ensures
        match r {
            Ok(v) => spec_decode_payload(payload@, method) == Ok::<Seq<u8>, ViewerError>(v@),
            Err(e) => spec_decode_payload(payload@, method) == Err::<Seq<u8>, ViewerError>(e),
        },
{
    if method == 0 {
        Ok(payload)
    } else if method == 8 {
        match inflate(&payload) {
            Some(out) => Ok(out),
            None => Err(ViewerError::MalformedArchive(MalformedKind::CorruptDeflateStream)),
        }
    } else {
        Err(ViewerError::UnsupportedCompression(method))
    }
}

/// Parse the local file header at the start of `data`, skip the name and
/// extra fields, and decompress everything that follows.
pub fn decompress_zip_entry(data: &Vec<u8>) -> (r: Result<Vec<u8>, ViewerError>)
    ensures
        match r {
            Ok(v) => spec_decompress(data@) == Ok::<Seq<u8>, ViewerError>(v@),
            Err(e) => spec_decompress(data@) == Err::<Seq<u8>, ViewerError>(e),
        },
{
    let (filename_len, extra_len, method) = parse_local_header_at(data, 0)?;
    let n = data.len();
    let start = 30 + filename_len as usize + extra_len as usize;
    if start > n {
        return Err(ViewerError::MalformedArchive(MalformedKind::TruncatedLocalHeader));
    }
    let payload = copy_range(data, start, n - start);
    decode_payload(payload, method)
}

// ---------------------------------------------------------------------------
// Whole-archive operations
// ---------------------------------------------------------------------------

/// How many trailing bytes the EOCD scan inspects: the whole archive when
/// it is small, the 65 557-byte cap otherwise.
pub open spec fn spec_tail_len(n: int) -> int {
    if n < 65557 {
        n
    } else {
        65557
    }
}

/// The window of the archive that the EOCD scan reads, as
/// `(offset, length)`; the plan a range reader follows first.
pub fn tail_window(n: u64) -> (r: (u64, u64))
    ensures
        r.1 == spec_tail_len(n as int),
        r.0 == n - r.1,
{
    let t = if n < EOCD_TAIL_WINDOW {
        n
    } else {
        EOCD_TAIL_WINDOW
    };
    (n - t, t)
}

/// Read `length` bytes at `offset` from an in-memory byte source.
///
/// This is the whole-buffer form of the byte-source capability: exactly
/// `length` bytes come back when the range lies within the source, and a
/// range past the end is the caller's fault, reported as `OutOfRange`.
pub fn read_range(data: &Vec<u8>, offset: u64, length: u64) -> (r: Result<Vec<u8>, ViewerError>)
    ensures
        match r {
            Ok(v) => offset + length <= data.len() && v@ == data@.subrange(
                offset as int,
                offset as int + length as int,
            ),
            Err(e) => offset + length > data.len() && e matches ViewerError::OutOfRange,
        },
{
    let n = data.len() as u64;
    if length > n || offset > n - length {
        return Err(ViewerError::OutOfRange);
    }
    Ok(copy_range(data, offset as usize, length as usize))
}

/// How many bytes an entry occupies from its local file header to the
/// end of its compressed payload: the fixed 30-byte header, the header's
/// own name and extra fields, then the payload.  `None` when the sum
/// does not fit in 64 bits — no well-formed archive reaches that.
pub fn entry_span(filename_len: u64, extra_len: u64, compressed_size: u64) -> (r: Option<u64>)
    ensures
        match r {
            Some(t) => t == 30 + filename_len + extra_len + compressed_size,
            None => 30 + filename_len + extra_len + compressed_size > u64::MAX,
        },
{
    if filename_len > u64::MAX - 30 {
        return None;
    }
    let h1 = 30 + filename_len;
    if extra_len > u64::MAX - h1 {
        return None;
    }
    let h2 = h1 + extra_len;
    if compressed_size > u64::MAX - h2 {
        return None;
    }
    Some(h2 + compressed_size)
}

/// Where the central directory lies, given the detected format: regular
/// archives carry the answer in the EOCD record itself; ZIP64 archives
/// defer to the EOCD64 record inside `a`.
pub open spec fn spec_cd_location(a: Seq<u8>, f: ZipFormat) -> Result<(u64, u64), ViewerError> {
    match f {
        ZipFormat::Regular { cd_offset, cd_size } => Ok((cd_offset, cd_size)),
        ZipFormat::Zip64 { eocd64_offset } => match spec_parse_eocd64(a, eocd64_offset as int) {
            Ok(v) => Ok(v),
            Err(k) => Err(ViewerError::MalformedArchive(k)),
        },
    }
}

/// The entries listed by the central directory window `(off, size)` of
/// archive `a`.
pub open spec fn spec_entries_at(a: Seq<u8>, off: u64, size: u64) -> Result<
    Seq<SpecEntry>,
    ViewerError,
> {
    if off + size > a.len() {
        Err(ViewerError::MalformedArchive(MalformedKind::OutOfBounds))
    } else {
        match spec_parse_cd(a.subrange(off as int, off as int + size as int), 0) {
            Ok(es) => Ok(es),
            Err(k) => Err(ViewerError::MalformedArchive(k)),
        }
    }
}

/// The listing of a whole archive: scan the tail window for the EOCD,
/// resolve the central directory's location (through the EOCD64 record
/// for ZIP64 archives) and parse the directory.
pub open spec fn spec_list_entries(a: Seq<u8>) -> Result<Seq<SpecEntry>, ViewerError> {
    let n = a.len() as int;
    let tail = a.subrange(n - spec_tail_len(n), n);
    match spec_check_zip_format(tail) {
        None => Err(ViewerError::MalformedArchive(MalformedKind::EocdNotFound)),
        Some(f) => match spec_cd_location(a, f) {
            Err(e) => Err(e),
            Ok(loc) => spec_entries_at(a, loc.0, loc.1),
        },
    }
}

/// Enumerate the entries of an in-memory archive, in central-directory
/// order.
pub fn list_entries(archive: &Vec<u8>) -> (r: Result<Vec<CentralDirectoryEntry>, ViewerError>)
    ensures
        match r {
            Ok(es) => spec_list_entries(archive@) == Ok::<Seq<SpecEntry>, ViewerError>(
                entries_view(es@),
            ),
            Err(e) => spec_list_entries(archive@) == Err::<Seq<SpecEntry>, ViewerError>(e),
        },
{
    let n = archive.len();
    let tail_len: usize = if n < 65557 {
        n
    } else {
        65557
    };
    let tail = copy_range(archive, n - tail_len, tail_len);
    let format = match check_zip_format(&tail) {
        Ok(f) => f,
        Err(e) => {
            return Err(e);
        },
    };
    let (cd_offset, cd_size) = match format {
        ZipFormat::Regular { cd_offset, cd_size } => (cd_offset, cd_size),
        ZipFormat::Zip64 { eocd64_offset } => {
            if eocd64_offset > n as u64 {
                return Err(ViewerError::MalformedArchive(MalformedKind::TruncatedEocd64));
            }
            match parse_eocd64(archive, eocd64_offset as usize) {
                Ok(v) => v,
                Err(e) => {
                    return Err(e);
                },
            }
        },
    };
    if cd_size > n as u64 || cd_offset > n as u64 - cd_size {
        return Err(ViewerError::MalformedArchive(MalformedKind::OutOfBounds));
    }
    let cd = copy_range(archive, cd_offset as usize, cd_size as usize);
    match parse_central_directory(&cd) {
        Ok(es) => Ok(es),
        Err(e) => Err(e),
    }
}

/// What extracting the entry at local-header offset `lho` with compressed
/// size `csize` from archive `a` yields: parse the local header, find the
/// payload after the header's own name and extra fields, and decode it.
pub open spec fn spec_extract(a: Seq<u8>, lho: u64, csize: u64) -> Result<Seq<u8>, ViewerError> {
    match spec_parse_local_header(a, lho as int) {
        Err(k) => Err(ViewerError::MalformedArchive(k)),
        Ok(h) => {
            let start = lho + 30 + h.0 + h.1;
            if start + csize > a.len() {
                Err(ViewerError::MalformedArchive(MalformedKind::OutOfBounds))
            } else {
                spec_decode_payload(a.subrange(start as int, start + csize), h.2)
            }
        },
    }
}

/// Extract one entry of an in-memory archive and return its uncompressed
/// bytes.
///
/// The payload starts at `local_header_offset + 30 + filename_len +
/// extra_len`, with both lengths read from the local file header itself;
/// they may legitimately differ from the central directory's copies.
pub fn extract_entry(archive: &Vec<u8>, entry: &CentralDirectoryEntry) -> (r: Result<
    Vec<u8>,
    ViewerError,
>)
    ensures
        match r {
            Ok(v) => spec_extract(archive@, entry.local_header_offset, entry.compressed_size)
                == Ok::<Seq<u8>, ViewerError>(v@),
            Err(e) => spec_extract(archive@, entry.local_header_offset, entry.compressed_size)
                == Err::<Seq<u8>, ViewerError>(e),
        },
{
    let n = archive.len();
    let lho = entry.local_header_offset;
    if lho > n as u64 {
        return Err(ViewerError::MalformedArchive(MalformedKind::TruncatedLocalHeader));
    }
    let (filename_len, extra_len, method) = match parse_local_header_at(archive, lho as usize) {
        Ok(v) => v,
        Err(e) => {
            return Err(e);
        },
    };
    let rem = n as u64 - (lho + 30);
    if filename_len as u64 + extra_len as u64 > rem {
        return Err(ViewerError::MalformedArchive(MalformedKind::OutOfBounds));
    }
    let rem2 = rem - filename_len as u64 - extra_len as u64;
    if entry.compressed_size > rem2 {
        return Err(ViewerError::MalformedArchive(MalformedKind::OutOfBounds));
    }
    let start = lho as usize + 30 + filename_len as usize + extra_len as usize;
    let payload = copy_range(archive, start, entry.compressed_size as usize);
    decode_payload(payload, method)
}

// ---------------------------------------------------------------------------
// Listing rows
// ---------------------------------------------------------------------------

/// The three-column listing row of one entry: name, local-header offset
/// and compressed size, the numbers in decimal.
pub open spec fn spec_entry_row(e: SpecEntry) -> Seq<Seq<char>> {
    seq![
        e.name,
        crate::utils::spec_dec(e.local_header_offset as int),
        crate::utils::spec_dec(e.compressed_size as int),
    ]
}

/// Render entries as listing rows.
pub fn entry_rows(entries: &Vec<CentralDirectoryEntry>) -> (r: Vec<Vec<String>>)
    ensures
        r@.len() == entries@.len(),
        forall|i: int| 0 <= i < entries@.len() ==> r.deep_view()[i] == spec_entry_row(entries@[i]@),
{
    let mut rows: Vec<Vec<String>> = Vec::new();
    let mut i: usize = 0;
    while i < entries.len()
        invariant
            i <= entries.len(),
            rows@.len() == i,
            forall|j: int| 0 <= j < i ==> (#[trigger] rows@[j]).deep_view() == spec_entry_row(
                entries@[j]@,
            ),
        decreases entries.len() - i,
    {
        let e = &entries[i];
        let mut row: Vec<String> = Vec::new();
        row.push(e.name.clone());
        row.push(crate::utils::u64_to_string(e.local_header_offset));
        row.push(crate::utils::u64_to_string(e.compressed_size));
        rows.push(row);
        proof {
            assert(rows@[i as int].deep_view() =~= spec_entry_row(entries@[i as int]@));
        }
        i = i + 1;
    }
    proof {
        assert forall|j: int| 0 <= j < entries@.len() implies rows.deep_view()[j] == spec_entry_row(
            entries@[j]@,
        ) by {
            assert(rows.deep_view()[j] == rows@[j].deep_view());
        }
    }
    rows
}

/// Parse a central directory buffer into listing rows, one per entry:
/// `[name, local-header offset, compressed size]`, the numbers rendered
/// in decimal.
pub fn zip_list_from_central_directory(cd_data: &Vec<u8>) -> (r: Result<
    Vec<Vec<String>>,
    ViewerError,
>)
    ensures
        match r {
            Ok(rows) => spec_parse_cd(cd_data@, 0) matches Ok(ses) && rows@.len() == ses.len()
                && forall|i: int| 0 <= i < ses.len() ==> rows.deep_view()[i] == spec_entry_row(
                ses[i],
            ),
            Err(e) => spec_parse_cd(cd_data@, 0) matches Err(k) && e == ViewerError::MalformedArchive(
                k,
            ),
        },
{
    let entries = parse_central_directory(cd_data)?;
    Ok(entry_rows(&entries))
}

// ---------------------------------------------------------------------------
// Laws
// ---------------------------------------------------------------------------

/// Whether entry `e`'s payload inside archive `a` is well formed and
/// decodes to exactly `member`.
pub open spec fn spec_entry_holds(a: Seq<u8>, e: SpecEntry, member: Seq<u8>) -> bool {
    &&& spec_parse_local_header(a, e.local_header_offset as int) is Ok
    &&& {
        let h = spec_parse_local_header(a, e.local_header_offset as int).unwrap();
        let start = e.local_header_offset + 30 + h.0 + h.1;
        &&& start + e.compressed_size <= a.len()
        &&& spec_decode_payload(a.subrange(start as int, start + e.compressed_size), h.2) == Ok::<
            Seq<u8>,
            ViewerError,
        >(member)
    }
}

/// Listing then extracting returns each member's original bytes: in any
/// archive whose listing succeeds and whose entry `i` stores `member`,
/// extraction at that entry yields exactly `member`.
pub proof fn lemma_list_then_extract(a: Seq<u8>, i: int, member: Seq<u8>)
    requires
        spec_list_entries(a) is Ok,
        0 <= i < spec_list_entries(a).unwrap().len(),
        spec_entry_holds(a, spec_list_entries(a).unwrap()[i], member),
    ensures
        ({
            let e = spec_list_entries(a).unwrap()[i];
            spec_extract(a, e.local_header_offset, e.compressed_size) == Ok::<Seq<u8>, ViewerError>(
                member,
            )
        }),
{
}

/// Listing over range reads agrees with listing over the whole buffer,
/// regular archives: when the tail window announces a regular central
/// directory lying within the archive, the listing is exactly the parse
/// of the directory window, so a reader that fetches only those two
/// windows reproduces the whole-buffer listing.
pub proof fn lemma_ranged_list_regular(a: Seq<u8>, tail: Seq<u8>, off: u64, size: u64, cd: Seq<u8>)
    requires
        tail == a.subrange(a.len() - spec_tail_len(a.len() as int), a.len() as int),
        spec_check_zip_format(tail) == Some(ZipFormat::Regular { cd_offset: off, cd_size: size }),
        off + size <= a.len(),
        cd == a.subrange(off as int, off as int + size as int),
    ensures
        spec_list_entries(a) == match spec_parse_cd(cd, 0) {
            Ok(es) => Ok::<Seq<SpecEntry>, ViewerError>(es),
            Err(k) => Err::<Seq<SpecEntry>, ViewerError>(ViewerError::MalformedArchive(k)),
        },
{
}

/// Listing over range reads agrees with listing over the whole buffer,
/// ZIP64 archives: the EOCD64 record parsed out of its own 56-byte window
/// equals the record parsed in place, and the listing follows the
/// directory location it announces.
pub proof fn lemma_ranged_list_zip64(a: Seq<u8>, tail: Seq<u8>, eo: u64, w: Seq<u8>)
    requires
        tail == a.subrange(a.len() - spec_tail_len(a.len() as int), a.len() as int),
        spec_check_zip_format(tail) == Some(ZipFormat::Zip64 { eocd64_offset: eo }),
        eo + 56 <= a.len(),
        w == a.subrange(eo as int, eo as int + 56),
    ensures
        spec_parse_eocd64(w, 0) == spec_parse_eocd64(a, eo as int),
        spec_list_entries(a) == match spec_parse_eocd64(w, 0) {
            Ok(loc) => spec_entries_at(a, loc.0, loc.1),
            Err(k) => Err::<Seq<SpecEntry>, ViewerError>(ViewerError::MalformedArchive(k)),
        },
{
    assert forall|k: int| 0 <= k < 56 implies w[k] == a[eo as int + k] by {}
    if le32(a, eo as int) == EOCD64_SIG {
        assert(le32(w, 0) == le32(a, eo as int));
        assert(le64(w, 40) == le64(a, eo as int + 40));
        assert(le64(w, 48) == le64(a, eo as int + 48));
    } else {
        assert(le32(w, 0) == le32(a, eo as int));
    }
}

} // verus!
