//! Tests of what is taken out of an asset pack.

use open_rebellion::assets::{
    check_replay_mode, data_files, install_runtime_pack, loose_texts, open_replay_pack, replay_detail,
    replay_requested, required_name, take_replay_texts, ReplayFailure, REQUIRED_FILES,
};
use open_rebellion::runtime_pack::VERSION;

fn pack(entries: &[(u8, &str, &[u8])]) -> Vec<u8> {
    let mut bytes = Vec::new();
    bytes.extend_from_slice(b"ORPK");
    bytes.extend_from_slice(&VERSION.to_le_bytes());
    bytes.extend_from_slice(&0_u16.to_le_bytes());
    bytes.extend_from_slice(&(entries.len() as u32).to_le_bytes());
    for (kind, key, data) in entries {
        bytes.push(*kind);
        bytes.extend_from_slice(&(key.len() as u16).to_le_bytes());
        bytes.extend_from_slice(&(data.len() as u32).to_le_bytes());
        bytes.extend_from_slice(key.as_bytes());
        bytes.extend_from_slice(data);
    }
    bytes
}

fn full_pack(strings: &'static [u8]) -> Vec<u8> {
    let mut entries: Vec<(u8, &str, &[u8])> = (0..REQUIRED_FILES)
        .map(|i| (0, required_name(i), b"data" as &[u8]))
        .collect();
    entries.push((0, "textstra.json", strings));
    entries.push((1, "strategy-dll/900", b"bitmap"));
    entries.push((1, "alsprite-dll/2002", b"al"));
    entries.push((1, "emsprite-dll/7", b"em"));
    entries.push((1, "my-emsprite-dll/7", b"no"));
    entries.push((2, "music/main_theme.wav", b"wave"));
    entries.push((3, "alsprite-dll/2002", b"sparse"));
    pack(&entries)
}

#[test]
fn a_full_pack_is_installed() {
    let assets = install_runtime_pack(&full_pack(br#"{"7":"Coruscant","300":"Yavin"}"#)).unwrap();
    assert_eq!(assets.strings.len(), 2);
    assert_eq!(assets.strings[&7], "Coruscant");
    assert_eq!(assets.strings[&300], "Yavin");
    assert_eq!(assets.game_files.len(), REQUIRED_FILES);
    assert!(!assets.game_files.contains_key("textstra.json"));
    assert_eq!(assets.bitmaps.len(), 4);
    assert_eq!(assets.audio_files.len(), 1);
    assert_eq!(assets.advisor_frames.len(), 1);
    let advisors: Vec<&str> = assets
        .advisor_bitmaps
        .entries
        .iter()
        .map(|(name, _)| name.as_str())
        .collect();
    assert_eq!(advisors, vec!["alsprite-dll/2002", "emsprite-dll/7"]);
    assert_eq!(assets.advisor_bitmaps.get("emsprite-dll/7").unwrap(), b"em");
}

#[test]
fn a_broken_string_table_counts_as_empty() {
    for strings in [b"{" as &[u8], br#"{"x":"not a number"}"#, br#"{"70000":"too large"}"#] {
        let assets = install_runtime_pack(&full_pack(strings)).unwrap();
        assert!(assets.strings.is_empty());
    }
}

#[test]
fn incomplete_packs_are_refused() {
    assert_eq!(install_runtime_pack(b"ORPK").err().unwrap(), "truncated header");
    let some = pack(&[(0, "SECTORSD.DAT", b"x"), (1, "a", b"b")]);
    assert_eq!(
        install_runtime_pack(&some).err().unwrap(),
        "required entry is missing: SYSTEMSD.DAT"
    );
    let files: Vec<(u8, &str, &[u8])> = (0..REQUIRED_FILES)
        .map(|i| (0, required_name(i), b"data" as &[u8]))
        .collect();
    assert_eq!(
        install_runtime_pack(&pack(&files)).err().unwrap(),
        "runtime pack contains no UI bitmaps"
    );
}

#[test]
fn replays_have_one_mode() {
    assert!(!replay_requested(0));
    assert!(replay_requested(2));
    assert!(check_replay_mode(1).is_ok());
    assert_eq!(
        check_replay_mode(2),
        Err(ReplayFailure {
            stage: "query",
            detail: "unsupported replay-check query mode 2".to_string(),
        })
    );
    assert_eq!(replay_detail(None), "all nine checkpoints matched");
    assert_eq!(replay_detail(Some("no")), "no");
}

#[test]
fn replays_open_their_pack() {
    let failure = open_replay_pack(b"XXXXXXXXXXXX").unwrap_err();
    assert_eq!(failure.stage, "runtime_pack_decode");
    assert_eq!(failure.detail, "invalid runtime-pack magic");
    let bytes = pack(&[
        (0, "systemsd.dat", b"x"),
        (0, "textstra.json", br#"{"1":"a"}"#),
        (0, "UPPER.DAT", b"x"),
        (0, "DAT", b"x"),
        (0, "a.data", b"x"),
    ]);
    let mut opened = open_replay_pack(&bytes).unwrap();
    assert_eq!(data_files(&opened.game_files), vec![0, 2]);
    let strings = take_replay_texts(&mut opened).unwrap();
    assert_eq!(strings[&1], "a");
    assert_eq!(opened.game_files.len(), 4);
    assert_eq!(
        take_replay_texts(&mut opened),
        Err(ReplayFailure {
            stage: "string_table",
            detail: "runtime pack is missing textstra.json".to_string(),
        })
    );
    let broken = pack(&[(0, "textstra.json", b"[]")]);
    let failure = take_replay_texts(&mut open_replay_pack(&broken).unwrap()).unwrap_err();
    assert_eq!(failure.stage, "string_table");
    assert!(failure.detail.starts_with("textstra.json is malformed: "));
    assert!(failure.detail.len() > "textstra.json is malformed: ".len());
}

#[test]
fn a_loose_string_table_is_read_or_empty() {
    let table = loose_texts(Some(br#"{"7":"Coruscant","300":"Yavin"}"#));
    assert_eq!(table.len(), 2);
    assert_eq!(table[&7], "Coruscant");
    assert_eq!(table[&300], "Yavin");
    assert!(loose_texts(Some(b"[]")).is_empty());
    assert!(loose_texts(Some(br#"{"70000":"too far"}"#)).is_empty());
    assert!(loose_texts(Some(b"")).is_empty());
    assert!(loose_texts(None).is_empty());
}
