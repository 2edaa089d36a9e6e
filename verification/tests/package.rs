use sourcerenderer::package::{
    read_archive_md5_section, read_entries, read_other_md5_section, read_signature_section, EntrySource,
    Package, PackageError, RsaKeyParameters, MAGIC,
};
use sourcerenderer::read_util::{ByteReader, IOError};

fn name(bytes: &mut Vec<u8>, text: &str) {
    bytes.extend_from_slice(text.as_bytes());
    bytes.push(0);
}

fn entry(bytes: &mut Vec<u8>, file: &str, crc: u32, small: &[u8], archive: u16, offset: u32, len: u32) {
    name(bytes, file);
    bytes.extend_from_slice(&crc.to_le_bytes());
    bytes.extend_from_slice(&(small.len() as u16).to_le_bytes());
    bytes.extend_from_slice(&archive.to_le_bytes());
    bytes.extend_from_slice(&offset.to_le_bytes());
    bytes.extend_from_slice(&len.to_le_bytes());
    bytes.extend_from_slice(&0xFFFFu16.to_le_bytes());
    bytes.extend_from_slice(small);
}

fn tree() -> Vec<u8> {
    let mut bytes = Vec::new();
    name(&mut bytes, "vmt");
    name(&mut bytes, "materials/brick");
    entry(&mut bytes, "wall", 0xCBF43926, &[], 0x7FFF, 0, 9);
    entry(&mut bytes, "floor", 7, &[0xAA, 0xBB], 3, 100, 4);
    name(&mut bytes, "");
    name(&mut bytes, " ");
    entry(&mut bytes, "root", 1, &[], 0x7FFF, 9, 0);
    name(&mut bytes, "");
    name(&mut bytes, "");
    name(&mut bytes, "txt");
    name(&mut bytes, "docs");
    entry(&mut bytes, "read.me", 2, &[1], 0x7FFF, 0, 0);
    name(&mut bytes, "");
    name(&mut bytes, "");
    name(&mut bytes, "");
    bytes
}

fn version_one() -> Vec<u8> {
    let tree = tree();
    let mut bytes = Vec::new();
    bytes.extend_from_slice(&MAGIC.to_le_bytes());
    bytes.extend_from_slice(&1u32.to_le_bytes());
    bytes.extend_from_slice(&(tree.len() as u32).to_le_bytes());
    bytes.extend_from_slice(&tree);
    bytes.extend_from_slice(b"123456789");
    bytes
}

fn version_two(whole: Option<[u8; 16]>) -> Vec<u8> {
    let tree = tree();
    let data = b"123456789";
    let mut bytes = Vec::new();
    bytes.extend_from_slice(&MAGIC.to_le_bytes());
    bytes.extend_from_slice(&2u32.to_le_bytes());
    bytes.extend_from_slice(&(tree.len() as u32).to_le_bytes());
    bytes.extend_from_slice(&(data.len() as u32).to_le_bytes());
    bytes.extend_from_slice(&28u32.to_le_bytes());
    bytes.extend_from_slice(&48u32.to_le_bytes());
    bytes.extend_from_slice(&(4 + 3 + 4 + 2u32).to_le_bytes());
    bytes.extend_from_slice(&tree);
    bytes.extend_from_slice(data);
    bytes.extend_from_slice(&5u32.to_le_bytes());
    bytes.extend_from_slice(&6u32.to_le_bytes());
    bytes.extend_from_slice(&7u32.to_le_bytes());
    bytes.extend_from_slice(&[0x11; 16]);
    bytes.extend_from_slice(&[0x21; 16]);
    bytes.extend_from_slice(&[0x22; 16]);
    let sum = match whole {
        Some(sum) => sum,
        None => md5::compute(&bytes).0,
    };
    bytes.extend_from_slice(&sum);
    bytes.extend_from_slice(&3u32.to_le_bytes());
    bytes.extend_from_slice(&[1, 2, 3]);
    bytes.extend_from_slice(&2u32.to_le_bytes());
    bytes.extend_from_slice(&[8, 9]);
    bytes
}

fn file_error(result: Result<Package, PackageError>) -> String {
    match result {
        Err(PackageError::FileError(message)) => message,
        other => panic!("{:?}", other.map(|p| p.version())),
    }
}

#[test]
fn names_lose_their_ending() {
    assert_eq!(Package::sanitize_file_name("pak01.vpk"), ("pak01".to_string(), false));
    assert_eq!(Package::sanitize_file_name("pak01_dir"), ("pak01".to_string(), true));
    assert_eq!(Package::sanitize_file_name("PAK01_DIR"), ("PAK01".to_string(), true));
    assert_eq!(Package::sanitize_file_name("Pak01_Dir.VPK"), ("Pak01_Dir".to_string(), false));
    assert_eq!(Package::sanitize_file_name("pak01"), ("pak01".to_string(), false));
    assert_eq!(Package::sanitize_file_name(".vpk"), ("".to_string(), false));
    assert_eq!(Package::sanitize_file_name("vpk"), ("vpk".to_string(), false));
    assert_eq!(Package::sanitize_file_name(""), ("".to_string(), false));
    assert_eq!(Package::sanitize_file_name("größe_dir"), ("größe".to_string(), true));
}

#[test]
fn a_package_of_the_first_version_has_a_header_and_a_tree() {
    let bytes = version_one();
    let package = Package::read("pak01_dir.vpk", ByteReader::new(bytes.clone())).unwrap();
    assert_eq!(package.file_name(), "pak01_dir");
    assert!(!package.is_dir_vpk());
    assert_eq!(package.version(), 1);
    assert_eq!(package.header_size(), 12);
    assert_eq!(package.tree_size() as usize, tree().len());
    assert_eq!(package.file_data_section_size(), 0);
    assert_eq!(package.archive_md5_section_size(), 0);
    assert_eq!(package.other_md5_section_size(), 0);
    assert_eq!(package.signature_section_size(), 0);
    assert_eq!(package.tree_checksum(), &vec![0u8; 16]);
    assert_eq!(package.archive_md5_entries_checksum(), &vec![0u8; 16]);
    assert_eq!(package.whole_file_checksum(), &vec![0u8; 16]);
    assert!(package.public_key().is_empty());
    assert!(package.signature().is_empty());
    assert!(package.archive_md5_entries().is_empty());
    assert_eq!(package.data().bytes_ref(), &bytes);
    let types = package.entries();
    assert_eq!(types.len(), 2);
    assert_eq!(types[0].file_type, "vmt");
    assert_eq!(types[0].entries.len(), 3);
    assert_eq!(types[1].file_type, "txt");
    let floor = &types[0].entries[1];
    assert_eq!(floor.file_name, "floor");
    assert_eq!(floor.directory_name, "materials/brick");
    assert_eq!(floor.file_type, "vmt");
    assert_eq!(floor.crc32, 7);
    assert_eq!(floor.small_data, vec![0xAA, 0xBB]);
    assert_eq!(floor.archive_index, 3);
    assert_eq!(floor.offset, 100);
    assert_eq!(floor.len, 4);
    assert_eq!(types[0].entries[2].directory_name, " ");
}

#[test]
fn a_package_of_the_second_version_has_its_sections() {
    let package = Package::read("pak01_dir", ByteReader::new(version_two(None))).unwrap();
    assert_eq!(package.file_name(), "pak01");
    assert!(package.is_dir_vpk());
    assert_eq!(package.version(), 2);
    assert_eq!(package.header_size(), 28);
    assert_eq!(package.file_data_section_size(), 9);
    assert_eq!(package.archive_md5_section_size(), 28);
    assert_eq!(package.other_md5_section_size(), 48);
    assert_eq!(package.signature_section_size(), 13);
    let archives = package.archive_md5_entries();
    assert_eq!(archives.len(), 1);
    assert_eq!((archives[0].archive_index, archives[0].offset, archives[0].length), (5, 6, 7));
    assert_eq!(archives[0].checksum, vec![0x11; 16]);
    assert_eq!(package.tree_checksum(), &vec![0x21; 16]);
    assert_eq!(package.archive_md5_entries_checksum(), &vec![0x22; 16]);
    assert_eq!(package.whole_file_checksum().len(), 16);
    assert_eq!(package.public_key(), &vec![1, 2, 3]);
    assert_eq!(package.signature(), &vec![8, 9]);
    assert_eq!(package.entries().len(), 2);
    assert!(package.check_sizes());
}

#[test]
fn bytes_that_are_no_package_are_refused() {
    let mut bytes = version_one();
    bytes[0] = 0;
    assert_eq!(file_error(Package::read("a", ByteReader::new(bytes))), "Given file is not a VPK.");
    let mut bytes = version_one();
    bytes[4] = 3;
    assert_eq!(file_error(Package::read("a", ByteReader::new(bytes))), "Bad VPK version: 3");
    let mut bytes = version_two(None);
    bytes[20] = 47;
    assert_eq!(
        file_error(Package::read("a", ByteReader::new(bytes))),
        "Encountered OtherMD5Section with size of 47 (should be 48)"
    );
    let mut bytes = version_one();
    let terminator = 12 + "vmt\0materials/brick\0wall\0".len() + 16;
    bytes[terminator] = 0;
    assert_eq!(file_error(Package::read("a", ByteReader::new(bytes))), "Invalid terminator.");
    let mut bytes = version_one();
    bytes[12] = 0xFF;
    assert_eq!(file_error(Package::read("a", ByteReader::new(bytes))), "Failed to read type name");
}

#[test]
fn bytes_that_end_early_are_an_error_of_reading() {
    for cut in [0usize, 3, 8, 11, 13, 40, 60] {
        let bytes = version_one()[..cut].to_vec();
        match Package::read("a", ByteReader::new(bytes)) {
            Err(PackageError::IOError(IOError::UnexpectedEof)) => {}
            other => panic!("{} {:?}", cut, other.map(|p| p.version())),
        }
    }
    let full = version_two(None);
    for cut in [20usize, 27, full.len() - 14, full.len() - 3] {
        match Package::read("a", ByteReader::new(full[..cut].to_vec())) {
            Err(PackageError::IOError(IOError::UnexpectedEof)) => {}
            other => panic!("{} {:?}", cut, other.map(|p| p.version())),
        }
    }
    assert!(Package::read("a", ByteReader::new(full[..full.len() - 1].to_vec())).is_ok());
}

#[test]
fn a_later_type_of_the_same_name_takes_the_place_of_the_first() {
    let mut bytes = Vec::new();
    name(&mut bytes, "a");
    name(&mut bytes, "d");
    entry(&mut bytes, "one", 1, &[], 0x7FFF, 0, 0);
    name(&mut bytes, "");
    name(&mut bytes, "");
    name(&mut bytes, "b");
    name(&mut bytes, "");
    name(&mut bytes, "a");
    name(&mut bytes, "d");
    entry(&mut bytes, "two", 2, &[], 0x7FFF, 0, 0);
    entry(&mut bytes, "three", 3, &[], 0x7FFF, 0, 0);
    name(&mut bytes, "");
    name(&mut bytes, "");
    name(&mut bytes, "");
    let mut reader = ByteReader::new(bytes);
    let types = read_entries(&mut reader).unwrap();
    assert_eq!(reader.position(), reader.len());
    assert_eq!(types.len(), 2);
    assert_eq!(types[0].file_type, "a");
    assert_eq!(types[0].entries.iter().map(|e| e.file_name.as_str()).collect::<Vec<&str>>(), vec!["two", "three"]);
    assert_eq!(types[1].file_type, "b");
    assert!(types[1].entries.is_empty());
}

#[test]
fn data_that_stands_with_an_entry_is_filled_up_with_zero_bytes() {
    let mut bytes = Vec::new();
    name(&mut bytes, "a");
    name(&mut bytes, "d");
    entry(&mut bytes, "one", 1, &[5, 6, 7], 0x7FFF, 0, 0);
    bytes.truncate(bytes.len() - 2);
    let mut reader = ByteReader::new(bytes);
    assert!(matches!(read_entries(&mut reader), Err(PackageError::IOError(IOError::UnexpectedEof))));
}

#[test]
fn sections_are_read_one_by_one() {
    let mut reader = ByteReader::new(vec![0; 10]);
    assert!(read_archive_md5_section(&mut reader, 0).unwrap().is_empty());
    assert!(read_archive_md5_section(&mut reader, 27).unwrap().is_empty());
    assert_eq!(reader.position(), 0);
    assert!(matches!(read_archive_md5_section(&mut reader, 28), Err(PackageError::IOError(_))));
    let mut reader = ByteReader::new((0..40u8).collect::<Vec<u8>>());
    let entries = read_archive_md5_section(&mut reader, 30).unwrap();
    assert_eq!(entries.len(), 1);
    assert_eq!(entries[0].archive_index, 0x03020100);
    assert_eq!(entries[0].checksum, (12..28u8).collect::<Vec<u8>>());
    assert_eq!(reader.position(), 28);
    let mut reader = ByteReader::new((0..20u8).collect::<Vec<u8>>());
    let (a, b, c) = read_other_md5_section(&mut reader, 48).unwrap();
    assert_eq!(a, (0..16u8).collect::<Vec<u8>>());
    assert_eq!(b, vec![16, 17, 18, 19, 0, 0, 0, 0, 0, 0, 0, 0, 0, 0, 0, 0]);
    assert_eq!(c, vec![0; 16]);
    assert!(matches!(read_other_md5_section(&mut reader, 0), Err(PackageError::FileError(_))));
    let mut reader = ByteReader::new(vec![2, 0, 0, 0, 7, 8, 1, 0, 0, 0, 9]);
    assert_eq!(read_signature_section(&mut reader, 0).unwrap(), (vec![], vec![]));
    assert_eq!(reader.position(), 0);
    assert_eq!(read_signature_section(&mut reader, 11).unwrap(), (vec![7, 8], vec![9]));
    let mut reader = ByteReader::new(vec![2, 0, 0, 0, 7, 8, 1, 0]);
    assert!(matches!(read_signature_section(&mut reader, 8), Err(PackageError::IOError(_))));
}

#[test]
fn entries_are_found_by_directory_name_and_ending() {
    let package = Package::read("pak01_dir.vpk", ByteReader::new(version_one())).unwrap();
    let found = package.find_entry_in_dir_with_extension("materials/brick", "wall", "vmt").unwrap();
    assert_eq!(found.len, 9);
    assert!(package.find_entry_in_dir_with_extension("/materials\\brick//", "floor", "vmt").is_some());
    assert!(package.find_entry_in_dir_with_extension("materials/brick", "wall", "txt").is_none());
    assert!(package.find_entry_in_dir_with_extension("materials/brick", "wall", "vtf").is_none());
    assert!(package.find_entry_in_dir_with_extension("materials", "wall", "vmt").is_none());
    assert!(package.find_entry_in_dir_with_extension("materials/brick", "roof", "vmt").is_none());
    assert_eq!(package.find_entry_in_dir_with_extension("", "root", "vmt").unwrap().offset, 9);
    assert!(package.find_entry_in_dir_with_extension("///", "root", "vmt").is_some());
    assert_eq!(package.find_entry_in_dir("materials/brick", "floor.vmt").unwrap().crc32, 7);
    assert!(package.find_entry_in_dir("materials/brick", "floor").is_none());
    assert!(package.find_entry_in_dir("docs", "read.me.txt").is_some());
    assert!(package.find_entry_in_dir("docs", "read.me").is_none());
}

#[test]
fn a_path_is_cut_at_its_last_separator() {
    let package = Package::read("pak01_dir.vpk", ByteReader::new(version_one())).unwrap();
    assert!(package.find_entry("materials/brick/wall.vmt").is_none());
    let swapped = package.find_entry("read.me.txt\\docs").unwrap();
    assert_eq!(swapped.file_name, "read.me");
    assert!(package.find_entry("root.vmt").is_none());
}

#[test]
fn the_content_of_an_entry_is_read_from_the_package() {
    let package = Package::read("pak01_dir", ByteReader::new(version_one())).unwrap();
    let wall = package.find_entry_in_dir("materials/brick", "wall.vmt").unwrap();
    assert!(matches!(package.entry_source(wall), Ok(EntrySource::Package { offset }) if offset == 12 + tree().len() as u32));
    assert_eq!(package.read_entry(wall, true, None).unwrap(), b"123456789".to_vec());
    let root = package.find_entry_in_dir("", "root.vmt").unwrap();
    assert!(matches!(package.entry_source(root), Ok(EntrySource::Nowhere)));
    assert_eq!(package.read_entry(root, false, None).unwrap(), Vec::<u8>::new());
    match package.read_entry(root, true, None) {
        Err(PackageError::FileError(message)) => assert_eq!(message, "CRC32 mismatch for read data."),
        other => panic!("{:?}", other),
    }
}

#[test]
fn the_content_of_an_entry_in_another_file_is_read_from_that_file() {
    let package = Package::read("pak01_dir", ByteReader::new(version_one())).unwrap();
    let floor = package.find_entry_in_dir("materials/brick", "floor.vmt").unwrap();
    match package.entry_source(floor) {
        Ok(EntrySource::Archive { file_name, offset }) => {
            assert_eq!(file_name, "pak01_3.vpk");
            assert_eq!(offset, 100);
        }
        other => panic!("{:?}", other),
    }
    let archive = (0..103u8).collect::<Vec<u8>>();
    assert_eq!(
        package.read_entry(floor, false, Some(&archive)).unwrap(),
        vec![0, 0, 100, 101, 102, 0, 0xAA, 0xBB]
    );
    assert!(matches!(package.read_entry(floor, true, Some(&archive)), Err(PackageError::FileError(_))));
    assert!(matches!(
        package.read_entry(floor, false, None),
        Err(PackageError::IOError(IOError::NotFound))
    ));
    let single = Package::read("pak01.vpk", ByteReader::new(version_one())).unwrap();
    let floor = single.find_entry_in_dir("materials/brick", "floor.vmt").unwrap();
    match single.read_entry(floor, false, Some(&archive)) {
        Err(PackageError::FileError(message)) => {
            assert_eq!(message, "Given VPK is not a _dir, but entry is referencing an external archive.")
        }
        other => panic!("{:?}", other),
    }
    assert!(matches!(single.entry_source(floor), Err(PackageError::FileError(_))));
}

#[test]
fn checksums_are_checked_against_the_bytes() {
    let first = Package::read("a", ByteReader::new(version_one())).unwrap();
    match first.verify_hashes(None) {
        Err(PackageError::FileError(message)) => assert_eq!(message, "Only version 2 is supported."),
        other => panic!("{:?}", other),
    }
    let wrong = Package::read("a", ByteReader::new(version_two(Some([0x33; 16])))).unwrap();
    match wrong.verify_hashes(None) {
        Err(PackageError::FileError(message)) => {
            assert!(message.starts_with("Package checksum mismatch ("), "{}", message);
            assert!(message.ends_with(" != expected [51, 51, 51, 51, 51, 51, 51, 51, 51, 51, 51, 51, 51, 51, 51, 51])."));
        }
        other => panic!("{:?}", other),
    }
    let right = Package::read("a", ByteReader::new(version_two(None))).unwrap();
    match right.verify_hashes(None) {
        Err(PackageError::FileError(message)) => {
            assert!(message.starts_with("Archive MD5 entries checksum mismatch ("), "{}", message);
            assert!(message.contains(" != expected [34, 34, 34,"));
        }
        other => panic!("{:?}", other),
    }
}

#[test]
fn a_signature_without_a_key_is_not_valid() {
    let package = Package::read("a", ByteReader::new(version_two(None))).unwrap();
    assert!(!package.is_signature_valid(None));
    assert!(package.signature_matches(&Some(vec![8, 9])));
    assert!(!package.signature_matches(&Some(vec![8])));
    assert!(!package.signature_matches(&None));
    let key = RsaKeyParameters { modulus: vec![0xFB, 0x6B, 0x05, 0x8F], exponent: vec![0x01, 0x00, 0x01] };
    assert!(!package.is_signature_valid(Some(&key)));
    let none = RsaKeyParameters { modulus: vec![], exponent: vec![] };
    assert!(!package.is_signature_valid(Some(&none)));
}

#[test]
fn a_checksum_that_does_not_fit_is_named_with_what_was_found() {
    let bytes = version_two(Some([0x0A; 16]));
    let checked = &bytes[..bytes.len() - 16 - 13];
    let found = md5::compute(checked);
    let package = Package::read("a", ByteReader::new(bytes.clone())).unwrap();
    match package.verify_hashes(None) {
        Err(PackageError::FileError(message)) => assert_eq!(
            message,
            format!("Package checksum mismatch ({:?} != expected {:?}).", found, [0x0Au8; 16])
        ),
        other => panic!("{:?}", other),
    }
    let fitting = version_two(None);
    let package = Package::read("a", ByteReader::new(fitting.clone())).unwrap();
    let header_and_tree = 28 + tree().len() + 9;
    let found = md5::compute(&fitting[header_and_tree..header_and_tree + 28]);
    match package.verify_hashes(None) {
        Err(PackageError::FileError(message)) => assert_eq!(
            message,
            format!("Archive MD5 entries checksum mismatch ({:?} != expected {:?}).", found, [0x22u8; 16])
        ),
        other => panic!("{:?}", other),
    }
}
