//! The wire format of the change journal: a buffer that begins with a 64-bit
//! number and goes on with version 2 journal records.

use vstd::bytes::{
    spec_u16_from_le_bytes, spec_u32_from_le_bytes, spec_u64_from_le_bytes, u16_from_le_bytes,
    u32_from_le_bytes, u64_from_le_bytes,
};
use vstd::prelude::*;
use vstd::slice::slice_subrange;
use crate::item::UNKNOWN_TS;
use crate::ntfs::{NodeView, NtfsNode};

verus! {

/// The length of a record up to its file name.
pub const USN_RECORD_HEADER_LEN: usize = 60;

pub const USN_REASON_FILE_CREATE: u32 = 0x100;

pub const USN_REASON_FILE_DELETE: u32 = 0x200;

pub const USN_REASON_RENAME_NEW_NAME: u32 = 0x2000;

pub const FILE_ATTRIBUTE_DIRECTORY: u32 = 0x10;

/// The seconds between the first day of 1601 and the first day of 1970.
pub const WINDOWS_EPOCH_TO_UNIX_SECS: i64 = 11_644_473_600;

/// One record of the change journal.
#[derive(Debug)]
pub struct UsnRecord {
    pub record_length: u32,
    pub major_version: u16,
    pub file_reference_number: u64,
    pub parent_file_reference_number: u64,
    pub usn: i64,
    pub timestamp: i64,
    pub reason: u32,
    pub file_attributes: u32,
    pub name: String,
}

/// What a [`UsnRecord`] stands for.
pub ghost struct RecordView {
    pub record_length: u32,
    pub major_version: u16,
    pub file_reference_number: u64,
    pub parent_file_reference_number: u64,
    pub usn: i64,
    pub timestamp: i64,
    pub reason: u32,
    pub file_attributes: u32,
    pub name: Seq<char>,
}

impl View for UsnRecord {
    type V = RecordView;

    open spec fn view(&self) -> RecordView {
        RecordView {
            record_length: self.record_length,
            major_version: self.major_version,
            file_reference_number: self.file_reference_number,
            parent_file_reference_number: self.parent_file_reference_number,
            usn: self.usn,
            timestamp: self.timestamp,
            reason: self.reason,
            file_attributes: self.file_attributes,
            name: self.name@,
        }
    }
}

pub open spec fn record_views(records: Seq<UsnRecord>) -> Seq<RecordView> {
    Seq::new(records.len(), |i: int| records[i]@)
}

/// The text that a sequence of UTF-16 code units decodes to, with the
/// replacement character in place of every unit that is no valid UTF-16.
pub uninterp spec fn utf16_lossy(units: Seq<u16>) -> Seq<char>;

/// Decodes UTF-16 with `String::from_utf16_lossy`: the result depends on the
/// code units alone.
#[verifier::external_body]
fn decode_utf16_lossy(units: &Vec<u16>) -> (r: String)
    ensures
        r@ == utf16_lossy(units@),
{
    String::from_utf16_lossy(units)
}

pub open spec fn le_u16_at(bytes: Seq<u8>, at: int) -> u16 {
    spec_u16_from_le_bytes(bytes.subrange(at, at + 2))
}

pub open spec fn le_u32_at(bytes: Seq<u8>, at: int) -> u32 {
    spec_u32_from_le_bytes(bytes.subrange(at, at + 4))
}

pub open spec fn le_u64_at(bytes: Seq<u8>, at: int) -> u64 {
    spec_u64_from_le_bytes(bytes.subrange(at, at + 8))
}

/// The code units of a name of `count` units that begins at `start`.
pub open spec fn name_units(bytes: Seq<u8>, start: int, count: int) -> Seq<u16> {
    Seq::new(count as nat, |i: int| le_u16_at(bytes, start + 2 * i))
}

/// The file name of the record at `at`: the decoded name, and the empty
/// text where the name has no unit or does not lie before `limit`.
pub open spec fn record_name(bytes: Seq<u8>, at: int, limit: int) -> Seq<char> {
    let count = le_u16_at(bytes, at + 56) as int / 2;
    let start = at + le_u16_at(bytes, at + 58) as int;
    if count == 0 || start + 2 * count > limit {
        Seq::empty()
    } else {
        utf16_lossy(name_units(bytes, start, count))
    }
}

/// The record whose header begins at `at`.
pub open spec fn record_at(bytes: Seq<u8>, at: int, limit: int) -> RecordView {
    RecordView {
        record_length: le_u32_at(bytes, at),
        major_version: le_u16_at(bytes, at + 4),
        file_reference_number: le_u64_at(bytes, at + 8),
        parent_file_reference_number: le_u64_at(bytes, at + 16),
        usn: le_u64_at(bytes, at + 24) as i64,
        timestamp: le_u64_at(bytes, at + 32) as i64,
        reason: le_u32_at(bytes, at + 40),
        file_attributes: le_u32_at(bytes, at + 52),
        name: record_name(bytes, at, limit),
    }
}

/// The records from `at` up to `limit`. Each record says how long it is and
/// so where the next one begins. The list ends where no whole header is
/// left, at a record of length zero, and with a record that says it goes on
/// beyond the limit.
pub open spec fn records_from(bytes: Seq<u8>, at: int, limit: int) -> Seq<RecordView>
    decreases limit - at,
{
    if at < 0 || at + USN_RECORD_HEADER_LEN > limit || limit > bytes.len() {
        Seq::empty()
    } else if le_u32_at(bytes, at) as int <= 0 {
        Seq::empty()
    } else if at + le_u32_at(bytes, at) as int > limit {
        seq![record_at(bytes, at, limit)]
    } else {
        records_from(bytes, at + le_u32_at(bytes, at) as int, limit).insert(
            0,
            record_at(bytes, at, limit),
        )
    }
}

pub fn read_u16(bytes: &[u8], at: usize) -> (r: u16)
    requires
        at + 2 <= bytes@.len(),
    ensures
        r == le_u16_at(bytes@, at as int),
{
    let len = bytes.len();
    assert(at + 2 <= len);
    u16_from_le_bytes(slice_subrange(bytes, at, at + 2))
}

pub fn read_u32(bytes: &[u8], at: usize) -> (r: u32)
    requires
        at + 4 <= bytes@.len(),
    ensures
        r == le_u32_at(bytes@, at as int),
{
    let len = bytes.len();
    assert(at + 4 <= len);
    u32_from_le_bytes(slice_subrange(bytes, at, at + 4))
}

pub fn read_u64(bytes: &[u8], at: usize) -> (r: u64)
    requires
        at + 8 <= bytes@.len(),
    ensures
        r == le_u64_at(bytes@, at as int),
{
    let len = bytes.len();
    assert(at + 8 <= len);
    u64_from_le_bytes(slice_subrange(bytes, at, at + 8))
}

/// Reads the file name of the record at `at`.
pub fn read_usn_v2_name(bytes: &[u8], at: usize, limit: usize) -> (r: String)
    requires
        at + USN_RECORD_HEADER_LEN <= limit <= bytes@.len(),
    ensures
        r@ == record_name(bytes@, at as int, limit as int),
{
    let count: usize = (read_u16(bytes, at + 56) / 2) as usize;
    let offset: usize = read_u16(bytes, at + 58) as usize;
    if count == 0 || offset > limit - at || 2 * count > limit - at - offset {
        return String::new();
    }
    let start = at + offset;
    let mut units: Vec<u16> = Vec::new();
    let mut i: usize = 0;
    while i < count
        invariant
            i <= count,
            start + 2 * count <= limit <= bytes@.len(),
            units@ == name_units(bytes@, start as int, count as int).take(i as int),
        decreases count - i,
    {
        units.push(read_u16(bytes, start + 2 * i));
        i += 1;
        assert(units@ =~= name_units(bytes@, start as int, count as int).take(i as int));
    }
    assert(units@ =~= name_units(bytes@, start as int, count as int));
    decode_utf16_lossy(&units)
}

/// Reads the record whose header begins at `at`.
pub fn read_record(bytes: &[u8], at: usize, limit: usize) -> (r: UsnRecord)
    requires
        at + USN_RECORD_HEADER_LEN <= limit <= bytes@.len(),
    ensures
        r@ == record_at(bytes@, at as int, limit as int),
{
    UsnRecord {
        record_length: read_u32(bytes, at),
        major_version: read_u16(bytes, at + 4),
        file_reference_number: read_u64(bytes, at + 8),
        parent_file_reference_number: read_u64(bytes, at + 16),
        usn: #[verifier::truncate] (read_u64(bytes, at + 24) as i64),
        timestamp: #[verifier::truncate] (read_u64(bytes, at + 32) as i64),
        reason: read_u32(bytes, at + 40),
        file_attributes: read_u32(bytes, at + 52),
        name: read_usn_v2_name(bytes, at, limit),
    }
}

/// What a buffer of `out_bytes` bytes holds: the number at its head and the
/// records behind it. A buffer of less than 8 bytes holds nothing.
pub open spec fn buffer_content(bytes: Seq<u8>, out_bytes: int) -> Option<(u64, Seq<RecordView>)> {
    if out_bytes < 8 || out_bytes > bytes.len() {
        None
    } else {
        Some((le_u64_at(bytes, 0), records_from(bytes, 8, out_bytes)))
    }
}

/// Reads the head and the records of a buffer of which `out_bytes` bytes
/// were filled.
pub fn parse_usn_buffer(bytes: &[u8], out_bytes: usize) -> (r: Option<(u64, Vec<UsnRecord>)>)
    ensures
        match r {
            Some((head, records)) => buffer_content(bytes@, out_bytes as int) == Some(
                (head, record_views(records@)),
            ),
            None => buffer_content(bytes@, out_bytes as int) is None,
        },
{
    if out_bytes < 8 || out_bytes > bytes.len() {
        return None;
    }
    let head = read_u64(bytes, 0);
    let mut records: Vec<UsnRecord> = Vec::new();
    let mut at: usize = 8;
    assert(record_views(records@) =~= Seq::<RecordView>::empty());
    loop
        invariant_except_break
            records_from(bytes@, 8, out_bytes as int) == record_views(records@) + records_from(
                bytes@,
                at as int,
                out_bytes as int,
            ),
        invariant
            8 <= at,
            out_bytes <= bytes@.len(),
        ensures
            records_from(bytes@, 8, out_bytes as int) == record_views(records@),
        decreases out_bytes - at,
    {
        if at > out_bytes || out_bytes - at < USN_RECORD_HEADER_LEN {
            assert(record_views(records@) + Seq::<RecordView>::empty() =~= record_views(records@));
            break ;
        }
        let record = read_record(bytes, at, out_bytes);
        let len = record.record_length as usize;
        if len == 0 {
            assert(record_views(records@) + Seq::<RecordView>::empty() =~= record_views(records@));
            break ;
        }
        let ghost before = record_views(records@);
        let ghost view = record@;
        records.push(record);
        assert(record_views(records@) =~= before.push(view));
        if len > out_bytes - at {
            assert(before + seq![view] =~= before.push(view));
            break ;
        }
        let ghost rest = records_from(bytes@, at + len, out_bytes as int);
        assert(before + rest.insert(0, view) =~= before.push(view) + rest);
        at = at + len;
    }
    Some((head, records))
}

/// The seconds since 1970 of a time given in units of 100 nanoseconds since
/// 1601. A time of zero or less stands for no time.
pub open spec fn unix_secs_of_filetime(filetime_100ns: i64) -> Option<i64> {
    if filetime_100ns <= 0 {
        None
    } else {
        Some((filetime_100ns / 10_000_000 - WINDOWS_EPOCH_TO_UNIX_SECS) as i64)
    }
}

pub fn filetime_100ns_to_unix_secs(filetime_100ns: i64) -> (r: Option<i64>)
    ensures
        r == unix_secs_of_filetime(filetime_100ns),
{
    if filetime_100ns <= 0 {
        return None;
    }
    Some(filetime_100ns / 10_000_000 - WINDOWS_EPOCH_TO_UNIX_SECS)
}

/// The modification time that stands for an unknown time.
pub fn unknown_ts() -> (r: i64)
    ensures
        r == UNKNOWN_TS,
{
    UNKNOWN_TS
}

/// The node that a record describes.
pub open spec fn node_of_record(record: RecordView) -> NodeView {
    NodeView {
        parent_id: record.parent_file_reference_number,
        name: record.name,
        is_dir: record.file_attributes & FILE_ATTRIBUTE_DIRECTORY != 0,
        modified_unix_secs: match unix_secs_of_filetime(record.timestamp) {
            Some(t) => t,
            None => UNKNOWN_TS,
        },
        file_attributes: record.file_attributes,
    }
}

pub fn node_from_record(record: &UsnRecord) -> (r: NtfsNode)
    ensures
        r@ == node_of_record(record@),
{
    NtfsNode {
        parent_id: record.parent_file_reference_number,
        name: record.name.clone(),
        is_dir: (record.file_attributes & FILE_ATTRIBUTE_DIRECTORY) != 0,
        modified_unix_secs: match filetime_100ns_to_unix_secs(record.timestamp) {
            Some(t) => t,
            None => UNKNOWN_TS,
        },
        file_attributes: record.file_attributes,
    }
}

} // verus!
