use payload_dumper::fetch_cache::FetchCache;
use payload_dumper::ota_metadata::{find_payload_via_metadata, parse_u64};
use payload_dumper::remote_zip::{is_payload_file_name, RemoteZipReader};
use payload_dumper::seek::SeekFrom;
use payload_dumper::zip::{is_payload_entry_name, ZipParser};
use payload_dumper::zip_decoder::{SharedZipPayloadReader, ZipDecoder, ZipPayloadReader};
use payload_dumper::zip_io::{prefers_memory_map, SliceReader, ZipError};

fn le16(v: &mut Vec<u8>, x: u16) {
    v.extend_from_slice(&x.to_le_bytes());
}

fn le32(v: &mut Vec<u8>, x: u32) {
    v.extend_from_slice(&x.to_le_bytes());
}

/// Builds a ZIP archive holding the given stored entries: (name, data, method).
fn build_zip(entries: &[(&str, &[u8], u16)], comment: &[u8]) -> Vec<u8> {
    let mut out = Vec::new();
    let mut offsets = Vec::new();
    for (name, data, method) in entries {
        offsets.push(out.len() as u32);
        le32(&mut out, 0x04034b50);
        le16(&mut out, 20);
        le16(&mut out, 0);
        le16(&mut out, *method);
        le16(&mut out, 0);
        le16(&mut out, 0);
        le32(&mut out, 0);
        le32(&mut out, data.len() as u32);
        le32(&mut out, data.len() as u32);
        le16(&mut out, name.len() as u16);
        le16(&mut out, 0);
        out.extend_from_slice(name.as_bytes());
        out.extend_from_slice(data);
    }
    let cd_offset = out.len() as u32;
    for (i, (name, data, method)) in entries.iter().enumerate() {
        le32(&mut out, 0x02014b50);
        le16(&mut out, 20);
        le16(&mut out, 20);
        le16(&mut out, 0);
        le16(&mut out, *method);
        le16(&mut out, 0);
        le16(&mut out, 0);
        le32(&mut out, 0);
        le32(&mut out, data.len() as u32);
        le32(&mut out, data.len() as u32);
        le16(&mut out, name.len() as u16);
        le16(&mut out, 0);
        le16(&mut out, 0);
        le16(&mut out, 0);
        le16(&mut out, 0);
        le32(&mut out, 0);
        le32(&mut out, offsets[i]);
        out.extend_from_slice(name.as_bytes());
    }
    let cd_size = out.len() as u32 - cd_offset;
    le32(&mut out, 0x06054b50);
    le16(&mut out, 0);
    le16(&mut out, 0);
    le16(&mut out, entries.len() as u16);
    le16(&mut out, entries.len() as u16);
    le32(&mut out, cd_size);
    le32(&mut out, cd_offset);
    le16(&mut out, comment.len() as u16);
    out.extend_from_slice(comment);
    out
}

fn payload_bytes() -> Vec<u8> {
    let mut p = b"CrAU".to_vec();
    p.extend_from_slice(&2u64.to_be_bytes());
    p.extend_from_slice(&[7u8; 20]);
    p
}

#[test]
fn zip_eocd_is_found_behind_a_comment() {
    let payload = payload_bytes();
    let zip = build_zip(&[("payload.bin", &payload, 0)], b"a comment");
    let reader = SliceReader::new(&zip);
    let (eocd, count) = ZipParser::find_eocd(&reader).unwrap();
    assert_eq!(eocd as usize, zip.len() - 22 - 9);
    assert_eq!(count, 1);
    let (eocd2, count2) = ZipParser::find_eocd_optimized(&reader).unwrap();
    assert_eq!((eocd2, count2), (eocd, count));
}

#[test]
fn zip_without_eocd_is_refused() {
    let data = vec![0u8; 100];
    let reader = SliceReader::new(&data);
    assert_eq!(ZipParser::find_eocd(&reader), Err(ZipError::EocdNotFound));
}

#[test]
fn zip_central_directory_info() {
    let payload = payload_bytes();
    let zip = build_zip(&[("a.txt", b"hello", 0), ("payload.bin", &payload, 0)], b"");
    let reader = SliceReader::new(&zip);
    let expected_cd = (30 + 5 + 5) + (30 + 11 + payload.len());
    assert_eq!(ZipParser::get_central_directory_info(&reader).unwrap(), (expected_cd as u64, 2));
    assert_eq!(ZipParser::get_central_directory_info_optimized(&reader).unwrap(), (expected_cd as u64, 2));
}

#[test]
fn zip_payload_entry_and_data_offset() {
    let payload = payload_bytes();
    let zip = build_zip(&[("a.txt", b"hello", 0), ("META/payload.bin", &payload, 0)], b"");
    let reader = SliceReader::new(&zip);
    let entry = ZipParser::find_payload_entry(&reader).unwrap();
    assert_eq!(entry.name, "META/payload.bin");
    assert_eq!(entry.uncompressed_size, payload.len() as u64);
    assert_eq!(entry.offset, 40);
    let data_offset = ZipParser::get_data_offset(&reader, &entry).unwrap();
    assert_eq!(data_offset, 40 + 30 + 16);
    assert_eq!(ZipParser::get_data_offset_optimized(&reader, &entry).unwrap(), data_offset);
    assert_eq!(ZipParser::verify_payload_magic(&reader, data_offset), Ok(()));
    assert_eq!(ZipParser::verify_payload_magic(&reader, 0), Err(ZipError::BadPayloadMagic));
}

#[test]
fn zip_compressed_payload_is_skipped() {
    let payload = payload_bytes();
    let zip = build_zip(&[("payload.bin", &payload, 8)], b"");
    let reader = SliceReader::new(&zip);
    assert_eq!(ZipParser::find_payload_entry(&reader).unwrap_err(), ZipError::PayloadNotFound);
}

#[test]
fn zip_parse_entry_from_slice_moves_the_cursor() {
    let zip = build_zip(&[("x.bin", b"abc", 0)], b"");
    let (cd, _) = ZipParser::get_central_directory_info(&SliceReader::new(&zip)).unwrap();
    let mut offset = cd as usize;
    let entry = ZipParser::parse_entry_from_slice(&zip, &mut offset).unwrap();
    assert_eq!(entry.name, "x.bin");
    assert_eq!(entry.compressed_size, 3);
    assert_eq!(offset, cd as usize + 46 + 5);
    let mut bad = 0usize;
    assert_eq!(ZipParser::parse_entry_from_slice(&zip, &mut bad).unwrap_err(), ZipError::BadCentralHeader);
    let short = vec![0u8; 10];
    let mut at = 0usize;
    assert_eq!(ZipParser::parse_entry_from_slice(&short, &mut at).unwrap_err(), ZipError::EntryTruncated);
}

#[test]
fn zip_decoder_keeps_the_last_entry_of_a_name() {
    let zip = build_zip(&[("dup", b"first", 0), ("dup", b"second!", 0)], b"");
    let decoder = ZipDecoder::new(SliceReader::new(&zip)).unwrap();
    let entry = decoder.get_entry("dup").unwrap();
    assert_eq!(entry.uncompressed_size, 7);
    assert!(decoder.get_entry("missing").is_none());
}

#[test]
fn zip_decoder_data_offset() {
    let zip = build_zip(&[("payload.bin", b"CrAU....", 0)], b"");
    let mut decoder = ZipDecoder::new(SliceReader::new(&zip)).unwrap();
    let entry = decoder.get_entry("payload.bin").unwrap().clone();
    assert_eq!(decoder.get_data_offset(&entry).unwrap(), 30 + 11);
}

#[test]
fn zip_payload_reader_reads_and_seeks() {
    let payload = payload_bytes();
    let zip = build_zip(&[("other", b"zz", 0), ("payload.bin", &payload, 0)], b"");
    let mut reader = ZipPayloadReader::new(SliceReader::new(&zip)).unwrap();
    reader.load_payload_entry().unwrap();
    let mut buf = [0u8; 4];
    assert_eq!(reader.read(&mut buf).unwrap(), 4);
    assert_eq!(&buf, b"CrAU");
    assert_eq!(reader.seek(SeekFrom::End(-4)).unwrap(), payload.len() as u64 - 4);
    let mut tail = [0u8; 10];
    assert_eq!(reader.read(&mut tail).unwrap(), 4);
    assert_eq!(&tail[..4], &payload[payload.len() - 4..]);
    assert_eq!(reader.read(&mut tail).unwrap(), 0);
    assert_eq!(reader.seek(SeekFrom::Current(1)).unwrap_err(), ZipError::SeekPastEnd);
    assert_eq!(reader.seek(SeekFrom::Start(4)).unwrap(), 4);
}

#[test]
fn zip_payload_reader_loads_on_first_read() {
    let payload = payload_bytes();
    let zip = build_zip(&[("payload.bin", &payload, 0)], b"");
    let mut reader = ZipPayloadReader::new(SliceReader::new(&zip)).unwrap();
    let mut buf = [0u8; 12];
    assert_eq!(reader.read(&mut buf).unwrap(), 12);
    assert_eq!(&buf[..4], b"CrAU");
    assert_eq!(&buf[4..12], &2u64.to_be_bytes());
}

#[test]
fn zip_payload_reader_without_payload() {
    let zip = build_zip(&[("other", b"zz", 0)], b"");
    let mut reader = ZipPayloadReader::new(SliceReader::new(&zip)).unwrap();
    assert_eq!(reader.load_payload_entry(), Err(ZipError::PayloadNotFound));
}

#[test]
fn zip_remote_reader_locates_the_payload() {
    let payload = payload_bytes();
    let zip = build_zip(&[("a", b"1", 0), ("payload.bin", &payload, 0)], b"c");
    let (offset, size) = RemoteZipReader::<SliceReader>::locate_payload(&SliceReader::new(&zip)).unwrap();
    assert_eq!(offset, 32 + 30 + 11);
    assert_eq!(size, payload.len() as u64);
    let mut r = RemoteZipReader::find_payload_via_zip_structure(SliceReader::new(&zip)).unwrap();
    let mut buf = [0u8; 4];
    assert_eq!(r.read(&mut buf).unwrap(), 4);
    assert_eq!(&buf, b"CrAU");
    assert_eq!(r.seek(SeekFrom::End(0)).unwrap(), size);
    assert!(r.seek(SeekFrom::End(1)).is_err());
}

#[test]
fn zip_payload_names() {
    assert!(is_payload_entry_name(&"payload.bin".to_string()));
    assert!(is_payload_entry_name(&"a/b/payload.bin".to_string()));
    assert!(!is_payload_entry_name(&"xpayload.bin".to_string()));
    assert!(is_payload_file_name(b"dir/payload.bin"));
    assert!(!is_payload_file_name(b"payload.bin2"));
}

#[test]
fn slice_reader_reads_and_seeks() {
    let data = b"0123456789".to_vec();
    let mut r = SliceReader::new(&data);
    let mut buf = [0u8; 4];
    assert_eq!(r.read(&mut buf), 4);
    assert_eq!(&buf, b"0123");
    assert_eq!(r.seek(SeekFrom::Current(4)).unwrap(), 8);
    assert_eq!(r.read(&mut buf), 2);
    assert_eq!(&buf[..2], b"89");
    assert!(r.seek(SeekFrom::End(1)).is_err());
    assert_eq!(r.seek(SeekFrom::Current(-100)).unwrap(), 0);
}

#[test]
fn ota_metadata_locates_the_payload() {
    let payload = payload_bytes();
    let meta = format!("ota-property-files=payload.bin:0:{},payload_properties.txt:1:2\n", payload.len());
    let zip = build_zip(&[("payload.bin", &payload, 0), ("META-INF/com/android/metadata", meta.as_bytes(), 0)], b"");
    assert_eq!(find_payload_via_metadata(&SliceReader::new(&zip)), Ok((0, payload.len() as u64)));
    let plain = build_zip(&[("payload.bin", &payload, 0)], b"");
    assert_eq!(find_payload_via_metadata(&SliceReader::new(&plain)), Err(ZipError::MetadataNotFound));
    let r = RemoteZipReader::new_for_parallel(SliceReader::new(&plain)).unwrap();
    let mut buf = [0u8; 4];
    let mut r = r;
    assert_eq!(r.read(&mut buf).unwrap(), 4);
    assert_eq!(&buf, b"CrAU");
}

#[test]
fn ota_metadata_offset_must_hold_a_header() {
    let meta = b"payload.bin:5:10,".to_vec();
    let zip = build_zip(&[("m", &meta, 0)], b"");
    assert_eq!(find_payload_via_metadata(&SliceReader::new(&zip)), Err(ZipError::MetadataNotFound));
    let bad = b"payload.bin:\xff\xfe,".to_vec();
    let zip2 = build_zip(&[("m", &bad, 0)], b"");
    assert_eq!(find_payload_via_metadata(&SliceReader::new(&zip2)), Err(ZipError::MetadataNotText));
}

#[test]
fn decimal_parsing() {
    assert_eq!(parse_u64(b"0"), Some(0));
    assert_eq!(parse_u64(b"+42"), Some(42));
    assert_eq!(parse_u64(b"18446744073709551615"), Some(u64::MAX));
    assert_eq!(parse_u64(b"18446744073709551616"), None);
    assert_eq!(parse_u64(b""), None);
    assert_eq!(parse_u64(b"+"), None);
    assert_eq!(parse_u64(b"-1"), None);
    assert_eq!(parse_u64(b"12a"), None);
    for s in ["7", "+0012", "99999999999999999999", "1x", " 1"] {
        assert_eq!(parse_u64(s.as_bytes()), s.parse::<u64>().ok(), "{}", s);
    }
}

#[test]
fn fetch_cache_reports_missing_ranges() {
    let payload = payload_bytes();
    let zip = build_zip(&[("a", b"1", 0), ("payload.bin", &payload, 0)], b"");
    let mut cache = FetchCache::new(zip.len() as u64);
    let mut rounds = 0;
    let found = loop {
        rounds += 1;
        match RemoteZipReader::<FetchCache>::locate_payload(&cache) {
            Ok(v) => break v,
            Err(ZipError::NotFetched { offset, len }) => {
                cache.add(offset, zip[offset as usize..(offset + len) as usize].to_vec());
            }
            Err(e) => panic!("unexpected {:?}", e),
        }
        assert!(rounds < 50);
    };
    assert_eq!(found, RemoteZipReader::<SliceReader>::locate_payload(&SliceReader::new(&zip)).unwrap());
    assert!(rounds > 1);
}

#[test]
fn shared_reader_reads_at_offsets() {
    let payload = payload_bytes();
    let zip = build_zip(&[("x", b"abc", 0), ("payload.bin", &payload, 0)], b"");
    let r = SharedZipPayloadReader::new(SliceReader::new(&zip)).unwrap();
    let mut buf = [0u8; 8];
    assert_eq!(r.read_at_payload(4, &mut buf).unwrap(), 8);
    assert_eq!(&buf, &2u64.to_be_bytes());
    let mut tail = [9u8; 10];
    assert_eq!(r.read_at_payload(payload.len() as u64 - 3, &mut tail).unwrap(), 3);
    assert_eq!(&tail[..3], &payload[payload.len() - 3..]);
    assert_eq!(tail[3], 9);
    assert_eq!(r.read_at_payload(payload.len() as u64, &mut tail).unwrap(), 0);
    let mut exact = [0u8; 4];
    r.read_data_at(0, &mut exact).unwrap();
    assert_eq!(&exact, b"CrAU");
    let mut too_long = vec![0u8; payload.len() + 1];
    assert_eq!(r.read_data_at(0, &mut too_long), Err(ZipError::UnexpectedEof));
    let none = build_zip(&[("x", b"abc", 0)], b"");
    assert!(matches!(SharedZipPayloadReader::new(SliceReader::new(&none)), Err(ZipError::PayloadNotFound)));
}

#[test]
fn slice_reader_positioned_reads() {
    let data = b"abcdef".to_vec();
    let r = SliceReader::new(&data);
    let mut buf = [0u8; 4];
    assert_eq!(r.read_at_most(4, &mut buf), 2);
    assert_eq!(&buf[..2], b"ef");
    assert_eq!(r.read_at_most(6, &mut buf), 0);
    assert!(!prefers_memory_map(10 * 1024 * 1024));
    assert!(prefers_memory_map(10 * 1024 * 1024 + 1));
}

fn le64(v: &mut Vec<u8>, x: u64) {
    v.extend_from_slice(&x.to_le_bytes());
}

/// A ZIP64 tail: the ZIP64 end record at 0, its locator, and a classic end
/// record whose central-directory offset is the ZIP64 marker.
fn zip64_tail(record_signature: u32) -> Vec<u8> {
    let mut out = Vec::new();
    le32(&mut out, record_signature);
    le64(&mut out, 44);
    le16(&mut out, 45);
    le16(&mut out, 45);
    le32(&mut out, 0);
    le32(&mut out, 0);
    le64(&mut out, 3);
    le64(&mut out, 3);
    le64(&mut out, 0x100);
    le64(&mut out, 0x1234_5678_9abc);
    assert_eq!(out.len(), 56);
    le32(&mut out, 0x07064b50);
    le32(&mut out, 0);
    le64(&mut out, 0);
    le32(&mut out, 1);
    le32(&mut out, 0x06054b50);
    le16(&mut out, 0);
    le16(&mut out, 0);
    le16(&mut out, 0xffff);
    le16(&mut out, 0xffff);
    le32(&mut out, 0xffff_ffff);
    le32(&mut out, 0xffff_ffff);
    le16(&mut out, 0);
    out
}

#[test]
fn zip64_central_directory_is_read_through_the_locator() {
    let data = zip64_tail(0x06064b50);
    let reader = SliceReader::new(&data);
    assert_eq!(ZipParser::get_central_directory_info(&reader), Ok((0x1234_5678_9abc, 3)));
    assert_eq!(ZipParser::get_central_directory_info_optimized(&reader), Ok((0x1234_5678_9abc, 3)));
}

#[test]
fn zip64_record_with_a_wrong_signature_is_refused() {
    let data = zip64_tail(0x06064b51);
    let reader = SliceReader::new(&data);
    assert_eq!(ZipParser::get_central_directory_info(&reader), Err(ZipError::Zip64BadSignature));
}

#[test]
fn zip64_without_locator_is_refused() {
    let mut data = build_zip(&[("a", b"xyz", 0)], b"");
    let eocd = data.len() - 22;
    data[eocd + 16..eocd + 20].copy_from_slice(&0xffff_ffffu32.to_le_bytes());
    let reader = SliceReader::new(&data);
    assert_eq!(ZipParser::get_central_directory_info(&reader), Err(ZipError::Zip64LocatorNotFound));
    assert_eq!(ZipParser::read_zip64_eocd(&reader, 19), Err(ZipError::Zip64Invalid));
}

#[test]
fn zip_entry_with_truncated_name_or_extra_is_refused() {
    let zip = build_zip(&[("name.bin", b"abc", 0)], b"");
    let (cd, _) = ZipParser::get_central_directory_info(&SliceReader::new(&zip)).unwrap();
    let cd = cd as usize;
    let header_and_part_of_name = &zip[cd..cd + 46 + 3];
    let mut at = 0usize;
    assert_eq!(
        ZipParser::parse_entry_from_slice(header_and_part_of_name, &mut at).unwrap_err(),
        ZipError::FilenameTruncated
    );
    let mut with_extra = zip[cd..cd + 46 + 8].to_vec();
    with_extra[30..32].copy_from_slice(&4u16.to_le_bytes());
    with_extra.extend_from_slice(&[1, 2]);
    let mut at = 0usize;
    assert_eq!(ZipParser::parse_entry_from_slice(&with_extra, &mut at).unwrap_err(), ZipError::ExtraTruncated);
}

#[test]
fn zip_local_header_must_be_valid_and_stored() {
    let payload = payload_bytes();
    let mut zip = build_zip(&[("payload.bin", &payload, 0)], b"");
    let reader = SliceReader::new(&zip);
    let mut entry = ZipParser::find_payload_entry(&reader).unwrap();
    entry.offset = 1;
    assert_eq!(ZipParser::get_data_offset(&reader, &entry), Err(ZipError::BadLocalHeader));
    assert_eq!(ZipParser::get_data_offset_optimized(&reader, &entry), Err(ZipError::BadLocalHeader));
    entry.offset = 0;
    zip[8..10].copy_from_slice(&8u16.to_le_bytes());
    let reader = SliceReader::new(&zip);
    assert_eq!(ZipParser::get_data_offset(&reader, &entry), Err(ZipError::PayloadCompressed));
    assert_eq!(ZipParser::get_data_offset_optimized(&reader, &entry), Err(ZipError::PayloadCompressed));
}

#[test]
fn zip_read_past_the_end_is_an_io_error() {
    let zip = build_zip(&[("a", b"b", 0)], b"");
    let reader = SliceReader::new(&zip);
    assert_eq!(ZipParser::verify_payload_magic(&reader, zip.len() as u64 - 2), Err(ZipError::Io));
}

#[test]
fn zip_entry_name_is_decoded_as_utf8() {
    let mut data = vec![0x50, 0x4B, 0x01, 0x02];
    data.extend_from_slice(&[0; 6]);
    data.extend_from_slice(&[0, 0]);
    data.extend_from_slice(&[0; 8]);
    data.extend_from_slice(&[16, 0, 0, 0]);
    data.extend_from_slice(&[32, 0, 0, 0]);
    data.extend_from_slice(&[3, 0]);
    data.extend_from_slice(&[0, 0]);
    data.extend_from_slice(&[2, 0]);
    data.extend_from_slice(&[0; 8]);
    data.extend_from_slice(&[0, 1, 0, 0]);
    data.extend_from_slice(b"a/b");
    data.extend_from_slice(&[0, 0]);
    assert_eq!(data.len(), 51);
    let mut offset = 0usize;
    let e = ZipParser::parse_entry_from_slice(&data, &mut offset).unwrap();
    assert_eq!(e.name, "a/b");
    assert_eq!((e.compressed_size, e.uncompressed_size, e.offset), (16, 32, 256));
    assert_eq!((e.compression_method, e.data_offset), (0, 0));
    assert_eq!(offset, 51);
    let mut lossy = data.clone();
    lossy[47] = 0xff;
    let mut offset = 0usize;
    assert_eq!(ZipParser::parse_entry_from_slice(&lossy, &mut offset).unwrap().name, "a\u{fffd}b");
}
