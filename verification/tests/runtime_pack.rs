//! Tests of the runtime asset pack.

use open_rebellion::runtime_pack::{
    parse_runtime_pack, PackError, KIND_ADVISOR_FRAME, KIND_AUDIO, KIND_BITMAP, KIND_GAME_DATA,
    VERSION,
};

fn pack(entries: &[(u8, &str, &[u8])]) -> Vec<u8> {
    let mut bytes = Vec::new();
    bytes.extend_from_slice(b"ORPK");
    bytes.extend_from_slice(&VERSION.to_le_bytes());
    bytes.extend_from_slice(&0_u16.to_le_bytes());
    bytes.extend_from_slice(&(entries.len() as u32).to_le_bytes());
    for (kind, key, data) in entries {
        bytes.push(*kind);
        bytes.extend_from_slice(&(key.len() as u16).to_le_bytes());
        bytes.extend_from_slice(&(data.len() as u32).to_le_bytes());
        bytes.extend_from_slice(key.as_bytes());
        bytes.extend_from_slice(data);
    }
    bytes
}

#[test]
fn parses_game_data_bitmap_audio_and_advisor_entries() {
    let bytes = pack(&[
        (KIND_GAME_DATA, "SYSTEMSD.DAT", b"systems"),
        (KIND_GAME_DATA, "textstra.json", b"{}"),
        (KIND_BITMAP, "strategy-dll/900", b"bitmap"),
        (KIND_AUDIO, "music/main_theme.wav", b"wave"),
        (KIND_ADVISOR_FRAME, "alsprite-dll/2002", b"sparse"),
    ]);

    let parsed = parse_runtime_pack(&bytes).unwrap();
    assert_eq!(parsed.game_files.get("SYSTEMSD.DAT").unwrap(), b"systems");
    assert_eq!(parsed.game_files.get("textstra.json").unwrap(), b"{}");
    assert_eq!(parsed.bitmaps.get("strategy-dll/900").unwrap(), b"bitmap");
    assert_eq!(parsed.audio_files.get("music/main_theme.wav").unwrap(), b"wave");
    assert_eq!(parsed.advisor_frames.get("alsprite-dll/2002").unwrap(), b"sparse");
}

#[test]
fn rejects_corrupt_or_ambiguous_packs() {
    assert_eq!(
        parse_runtime_pack(b"ORPK"),
        Err(PackError::Truncated("header"))
    );

    let mut bad_magic = pack(&[]);
    bad_magic[0] = b'X';
    assert_eq!(parse_runtime_pack(&bad_magic), Err(PackError::InvalidMagic));

    let duplicate = pack(&[
        (KIND_GAME_DATA, "SYSTEMSD.DAT", b"one"),
        (KIND_GAME_DATA, "SYSTEMSD.DAT", b"two"),
    ]);
    assert_eq!(
        parse_runtime_pack(&duplicate),
        Err(PackError::DuplicateKey("SYSTEMSD.DAT".to_string()))
    );

    let mut trailing = pack(&[]);
    trailing.push(0);
    assert_eq!(
        parse_runtime_pack(&trailing),
        Err(PackError::TrailingBytes(1))
    );
}

#[test]
fn rejects_unknown_entry_kinds_and_truncation() {
    let unknown = pack(&[(9, "mystery", b"bytes")]);
    assert_eq!(parse_runtime_pack(&unknown), Err(PackError::UnknownKind(9)));

    let mut truncated = pack(&[(KIND_BITMAP, "common-dll/20001", b"bitmap")]);
    truncated.pop();
    assert_eq!(
        parse_runtime_pack(&truncated),
        Err(PackError::Truncated("entry data"))
    );
}
