use zebrafish::command_line::{
    command_line_from_content, command_line_from_text, encode_ucs2, fallback_command_line,
    load_command_line, read_size, CmdlineError, ConfigFile, CAPACITY, FALLBACK_CMDLINE, MAX_READ,
};
use zebrafish::device_path::{MEDIA_FILE_PATH_SUBTYPE, MEDIA_TYPE};
use zebrafish::handoff::kernel_device_path;
use zebrafish::device_path::PathNode;

fn terminated(s: &str) -> Vec<u16> {
    let mut v: Vec<u16> = s.encode_utf16().collect();
    v.push(0);
    v
}

fn is_fallback(r: Result<zebrafish::command_line::CommandLine, CmdlineError>) -> bool {
    match r {
        Ok(c) => c.units() == terminated("initrd=\\zebrafish-initrd").as_slice(),
        Err(_) => false,
    }
}

#[test]
fn fallback_literal() {
    let c = fallback_command_line();
    assert_eq!(c.units(), terminated(FALLBACK_CMDLINE).as_slice());
    assert_eq!(c.content_len(), 24);
    assert_eq!(c.load_options_size(), 48);
}

#[test]
fn fallback_when_volume_cannot_be_opened() {
    assert!(is_fallback(load_command_line(&ConfigFile::VolumeUnavailable)));
}

#[test]
fn fallback_when_file_cannot_be_opened() {
    assert!(is_fallback(load_command_line(&ConfigFile::Missing)));
}

#[test]
fn fallback_when_file_is_a_directory() {
    assert!(is_fallback(load_command_line(&ConfigFile::NotRegular)));
}

#[test]
fn fallback_when_file_is_empty() {
    assert!(is_fallback(load_command_line(&ConfigFile::Contents(Vec::new()))));
}

#[test]
fn metadata_failure_is_an_error() {
    assert_eq!(load_command_line(&ConfigFile::MetadataUnavailable).err(), Some(CmdlineError::Metadata));
}

#[test]
fn read_failure_is_an_error() {
    assert_eq!(load_command_line(&ConfigFile::ReadFailed).err(), Some(CmdlineError::Read));
}

#[test]
fn content_passes_through() {
    let c = load_command_line(&ConfigFile::Contents(b"foo=bar".to_vec())).unwrap();
    assert_eq!(c.units(), terminated("foo=bar").as_slice());
    assert_eq!(c.content_len(), 7);
    assert_eq!(c.units().len(), 8);
    assert_eq!(c.units()[7], 0);
}

#[test]
fn truncated_at_the_capacity_limit() {
    for size in [MAX_READ, CAPACITY, 20000] {
        let c = command_line_from_content(&vec![b'a'; size]).unwrap();
        assert_eq!(c.content_len(), CAPACITY - 2);
        assert_eq!(c.units().len(), CAPACITY - 1);
        assert_eq!(c.units()[CAPACITY - 2], 0);
        assert!(c.units()[..CAPACITY - 2].iter().all(|&u| u == b'a' as u16));
    }
}

#[test]
fn read_size_is_bounded() {
    assert_eq!(read_size(0), 0);
    assert_eq!(read_size(7), 7);
    assert_eq!(read_size(16382), 16382);
    assert_eq!(read_size(16383), 16382);
    assert_eq!(read_size(16384), 16382);
    assert_eq!(read_size(u64::MAX), 16382);
}

#[test]
fn invalid_utf8_is_an_error() {
    let r = load_command_line(&ConfigFile::Contents(vec![b'a', 0xff, b'b']));
    assert_eq!(r.err(), Some(CmdlineError::InvalidUtf8));
}

#[test]
fn multibyte_text_is_transcoded() {
    let c = command_line_from_content("caf\u{e9}=\u{4e2d}".as_bytes()).unwrap();
    assert_eq!(c.units(), &[0x63, 0x61, 0x66, 0xe9, 0x3d, 0x4e2d, 0][..]);
    assert_eq!(c.content_len(), 6);
}

#[test]
fn characters_outside_ucs2_are_rejected() {
    let r = command_line_from_content("a\u{1f600}".as_bytes());
    assert_eq!(r.err(), Some(CmdlineError::NotUcs2));
    let r = command_line_from_content(&[b'a', 0, b'b']);
    assert_eq!(r.err(), Some(CmdlineError::NotUcs2));
}

#[test]
fn text_that_does_not_fit_is_rejected() {
    let long = "a".repeat(CAPACITY);
    assert_eq!(command_line_from_text(&long).err(), Some(CmdlineError::NotUcs2));
    let fits = "a".repeat(CAPACITY - 1);
    assert_eq!(command_line_from_text(&fits).unwrap().content_len(), CAPACITY - 1);
}

#[test]
fn ucs2_encoding_of_names() {
    assert_eq!(encode_ucs2("\\cmdline.txt"), Some("\\cmdline.txt".encode_utf16().collect()));
    assert_eq!(encode_ucs2("x\u{10000}"), None);
    assert_eq!(encode_ucs2(""), Some(Vec::new()));
}

#[test]
fn end_to_end_handoff_values() {
    let c = load_command_line(&ConfigFile::Contents(b"root=/dev/sda1".to_vec())).unwrap();
    assert_eq!(c.units(), terminated("root=/dev/sda1").as_slice());
    assert_eq!(c.content_len(), 14);
    assert_eq!(c.load_options_size(), 28);
    let own = vec![
        PathNode { device_type: 0x02, sub_type: 0x01, data: vec![0xd0, 0x41, 0x03, 0x0a, 0, 0, 0, 0] },
        PathNode { device_type: MEDIA_TYPE, sub_type: MEDIA_FILE_PATH_SUBTYPE, data: vec![0x61, 0, 0, 0] },
    ];
    let path = kernel_device_path(&own);
    assert_eq!(path.len(), 2);
    assert_eq!(path[0].data, own[0].data);
    assert_eq!((path[1].device_type, path[1].sub_type), (MEDIA_TYPE, MEDIA_FILE_PATH_SUBTYPE));
    let name: Vec<u16> = path[1].data.chunks(2).map(|p| u16::from_le_bytes([p[0], p[1]])).collect();
    assert_eq!(name, terminated("\\zebrafish-kernel"));
}
