use avm::web::{is_utf8, process_record_path, sniff_mime};

#[test]
fn mime_detection_is_conservative() {
    assert_eq!(sniff_mime(b"\x89PNG\r\n\x1a\nrest"), "image/png");
    assert_eq!(sniff_mime(b"plain text"), "text/plain; charset=utf-8");
    assert_eq!(sniff_mime(&[0, 159, 146, 150]), "application/octet-stream");
}

#[test]
fn archives_and_audio_are_recognised_by_signature() {
    assert_eq!(sniff_mime(b"PK\x03\x04data"), "application/zip");
    assert_eq!(sniff_mime(b"RIFF\x00\x00\x00\x00WAVEfmt "), "audio/wav");
    assert_eq!(sniff_mime(b"RIFF\x00\x00\x00\x00AVI "), "text/plain; charset=utf-8");
    assert_eq!(sniff_mime(b""), "text/plain; charset=utf-8");
}

#[test]
fn utf8_validation_matches_std() {
    let samples: Vec<Vec<u8>> = vec![
        b"ascii".to_vec(),
        "é中😀".as_bytes().to_vec(),
        vec![0xC0, 0x80],
        vec![0xE0, 0x80, 0x80],
        vec![0xED, 0xA0, 0x80],
        vec![0xF4, 0x90, 0x80, 0x80],
        vec![0xF0, 0x9F, 0x98],
        vec![0xEF, 0xBF, 0xBF],
    ];
    for bytes in samples {
        assert_eq!(is_utf8(&bytes), std::str::from_utf8(&bytes).is_ok(), "{bytes:?}");
    }
}

#[test]
fn inspector_record_lives_in_the_state_directory() {
    assert_eq!(process_record_path("/state"), "/state/webui.pid");
    assert_eq!(process_record_path("/state/"), "/state/webui.pid");
}
