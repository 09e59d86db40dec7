//! What a program takes out of a runtime asset pack.

use crate::runtime_pack::{
    fault_text, file_at, file_data, has_file, parse_runtime_pack, read_pack, without_file, Fault,
    FileTable, Pack, RuntimePack,
};
use crate::select::collect;
use crate::text::{
    decimal, ends_upper, ends_with_upper, join2, join3, join5, number, stands_at, starts_with,
    text_from,
};
use std::collections::HashMap;
use vstd::prelude::*;
use vstd::string::*;

verus! {

broadcast use vstd::std_specs::hash::group_hash_axioms;

// ---- The string table ------------------------------------------------------

/// What `serde_json::from_slice` reads as a table of numbered texts: the
/// table, or its error in words.
pub uninterp spec fn json_texts(bytes: Seq<u8>) -> Result<Map<u16, Seq<char>>, Seq<char>>;

/// What a table of texts says.
pub open spec fn texts(table: Map<u16, String>) -> Map<u16, Seq<char>> {
    Map::new(|k: u16| table.contains_key(k), |k: u16| table[k]@)
}

/// Calls `serde_json::from_slice` for a map from 16-bit numbers to texts. The
/// claim is only that what comes back, the table or the words of the error,
/// depends on nothing but the bytes; what a given text of JSON is read as is
/// left to that crate.
#[verifier::external_body]
fn read_texts(bytes: &[u8]) -> (table: Result<HashMap<u16, String>, String>)
    ensures
        match (table, json_texts(bytes@)) {
            (Ok(t), Ok(m)) => texts(t@) == m,
            (Err(e), Err(words)) => e@ == words,
            _ => false,
        },
{
    serde_json::from_slice(bytes).map_err(|error| error.to_string())
}

/// The name of the string table in a pack.
pub open spec fn texts_name() -> Seq<char> {
    "textstra.json"@
}

/// The texts of a game: those of its string table, or none where that is
/// missing or cannot be read.
pub open spec fn texts_or_none(
    file: Option<Seq<u8>>,
    read: Result<Map<u16, Seq<char>>, Seq<char>>,
) -> Map<u16, Seq<char>> {
    match (file, read) {
        (Some(_), Ok(m)) => m,
        _ => Map::empty(),
    }
}

/// The texts that were read, or none.
pub fn texts_read(read: Option<Result<HashMap<u16, String>, String>>) -> (table: HashMap<
    u16,
    String,
>)
    ensures
        texts(table@) == match read {
            Some(Ok(t)) => texts(t@),
            _ => Map::empty(),
        },
{
    match read {
        Some(Ok(table)) => table,
        _ => {
            let table: HashMap<u16, String> = HashMap::new();
            assert(texts(table@) =~= Map::<u16, Seq<char>>::empty());
            table
        },
    }
}

// ---- Installing ------------------------------------------------------------

/// How many data files every pack must have.
pub const REQUIRED_FILES: usize = 7;

/// The `i`th data file that every pack must have.
pub open spec fn required_file(i: int) -> Seq<char> {
    if i == 0 {
        "SECTORSD.DAT"@
    } else if i == 1 {
        "SYSTEMSD.DAT"@
    } else if i == 2 {
        "CAPSHPSD.DAT"@
    } else if i == 3 {
        "FIGHTSD.DAT"@
    } else if i == 4 {
        "TROOPSD.DAT"@
    } else if i == 5 {
        "MJCHARSD.DAT"@
    } else {
        "MNCHARSD.DAT"@
    }
}

/// The `i`th data file that every pack must have.
pub fn required_name(i: usize) -> (name: &'static str)
    requires
        i < REQUIRED_FILES,
    ensures
        name@ == required_file(i as int),
{
    match i {
        0 => "SECTORSD.DAT",
        1 => "SYSTEMSD.DAT",
        2 => "CAPSHPSD.DAT",
        3 => "FIGHTSD.DAT",
        4 => "TROOPSD.DAT",
        5 => "MJCHARSD.DAT",
        _ => "MNCHARSD.DAT",
    }
}

/// The first required file, from the `from`th on, that is missing.
pub open spec fn first_missing(files: Seq<(Seq<char>, Seq<u8>)>, from: nat) -> Option<nat>
    decreases REQUIRED_FILES - from,
{
    if from >= REQUIRED_FILES {
        None
    } else if !has_file(files, required_file(from as int)) {
        Some(from)
    } else {
        first_missing(files, from + 1)
    }
}

/// Why a pack cannot be installed, in words.
pub open spec fn refusal(read: Result<Pack, Fault>) -> Option<Seq<char>> {
    match read {
        Err(fault) => Some(fault_text(fault)),
        Ok(pack) => match first_missing(pack.game_files, 0) {
            Some(i) => Some("required entry is missing: "@ + required_file(i as int)),
            None => if pack.bitmaps.len() == 0 {
                Some("runtime pack contains no UI bitmaps"@)
            } else {
                None
            },
        },
    }
}

/// Whether a bitmap belongs to the advisors.
pub open spec fn is_advisor_bitmap(name: Seq<char>) -> bool {
    stands_at(name, "alsprite-dll/"@, 0) || stands_at(name, "emsprite-dll/"@, 0)
}

/// The `i`th bitmap, if it belongs to the advisors.
pub open spec fn advisor_bitmap(bitmaps: Seq<(Seq<char>, Seq<u8>)>) -> spec_fn(int) -> Option<
    (Seq<char>, Seq<u8>),
> {
    |i: int|
        if is_advisor_bitmap(bitmaps[i].0) {
            Some(bitmaps[i])
        } else {
            None
        }
}

/// An installed pack.
pub struct Assets {
    pub strings: HashMap<u16, String>,
    pub game_files: FileTable,
    pub bitmaps: FileTable,
    pub audio_files: FileTable,
    pub advisor_frames: FileTable,
    pub advisor_bitmaps: FileTable,
}

impl Assets {
    /// Whether these are the assets of a pack, where `read` is what the
    /// string table of the pack was read as.
    pub open spec fn of(&self, pack: Pack, read: Map<u16, Seq<char>>) -> bool {
        &&& texts(self.strings@) == read
        &&& self.game_files@ == without_file(pack.game_files, texts_name())
        &&& self.bitmaps@ == pack.bitmaps
        &&& self.audio_files@ == pack.audio_files
        &&& self.advisor_frames@ == pack.advisor_frames
        &&& self.advisor_bitmaps@ == collect(pack.bitmaps.len(), advisor_bitmap(pack.bitmaps))
    }
}

/// Copies a list of bytes.
fn copy_bytes(bytes: &Vec<u8>) -> (copy: Vec<u8>)
    ensures
        copy@ == bytes@,
{
    let mut copy: Vec<u8> = Vec::new();
    for i in 0..bytes.len()
        invariant
            copy@ == bytes@.take(i as int),
    {
        copy.push(bytes[i]);
        assert(copy@ =~= bytes@.take(i + 1));
    }
    assert(copy@ =~= bytes@);
    copy
}

/// Copies the bitmaps of the advisors out of all bitmaps.
pub fn advisor_bitmaps(bitmaps: &FileTable) -> (found: FileTable)
    ensures
        found@ == collect(bitmaps@.len(), advisor_bitmap(bitmaps@)),
{
    let ghost f = advisor_bitmap(bitmaps@);
    let mut found: FileTable = FileTable::new();
    for i in 0..bitmaps.entries.len()
        invariant
            f == advisor_bitmap(bitmaps@),
            found@ == collect(i as nat, f),
    {
        let name: &str = bitmaps.entries[i].0.as_str();
        assert(bitmaps@[i as int] == (name@, bitmaps.entries@[i as int].1@));
        if starts_with(name, "alsprite-dll/") || starts_with(name, "emsprite-dll/") {
            let data: Vec<u8> = copy_bytes(&bitmaps.entries[i].1);
            found.add(text_from(name), data);
        }
    }
    found
}

/// The first required file that is missing.
fn find_missing(files: &FileTable) -> (missing: Option<&'static str>)
    ensures
        match (missing, first_missing(files@, 0)) {
            (Some(name), Some(i)) => name@ == required_file(i as int),
            (None, None) => true,
            _ => false,
        },
{
    for i in 0..REQUIRED_FILES
        invariant
            first_missing(files@, 0) == first_missing(files@, i as nat),
    {
        let name: &'static str = required_name(i);
        if !files.contains_key(name) {
            return Some(name);
        }
    }
    None
}

/// Sorts a parsed pack into what a program needs, once its string table was
/// taken out and read as `strings`.
pub fn assets_from(pack: RuntimePack, strings: HashMap<u16, String>) -> (assets: Assets)
    ensures
        texts(assets.strings@) == texts(strings@),
        assets.game_files@ == pack@.game_files,
        assets.bitmaps@ == pack@.bitmaps,
        assets.audio_files@ == pack@.audio_files,
        assets.advisor_frames@ == pack@.advisor_frames,
        assets.advisor_bitmaps@ == collect(pack@.bitmaps.len(), advisor_bitmap(pack@.bitmaps)),
{
    let advisors: FileTable = advisor_bitmaps(&pack.bitmaps);
    Assets {
        strings,
        game_files: pack.game_files,
        bitmaps: pack.bitmaps,
        audio_files: pack.audio_files,
        advisor_frames: pack.advisor_frames,
        advisor_bitmaps: advisors,
    }
}

/// Takes out of a pack what a program needs. A pack that lacks a required
/// file or has no bitmaps is refused; a missing or broken string table is
/// taken for an empty one.
pub fn install_runtime_pack(bytes: &[u8]) -> (installed: Result<Assets, String>)
    ensures
        match installed {
            Ok(assets) => {
                &&& refusal(read_pack(bytes@)) is None
                &&& ({
                    let pack = read_pack(bytes@)->Ok_0;
                    let file = file_data(pack.game_files, texts_name());
                    assets.of(pack, texts_or_none(file, json_texts(file->0)))
                })
            },
            Err(words) => refusal(read_pack(bytes@)) == Some(words@),
        },
{
    let mut pack: RuntimePack = match parse_runtime_pack(bytes) {
        Ok(pack) => pack,
        Err(error) => {
            return Err(error.message());
        },
    };
    if let Some(name) = find_missing(&pack.game_files) {
        return Err(join2("required entry is missing: ", name));
    }
    let ghost whole = pack@;
    let read: Option<Result<HashMap<u16, String>, String>> = match pack.game_files.remove(
        "textstra.json",
    ) {
        Some(data) => Some(read_texts(data.as_slice())),
        None => None,
    };
    let strings: HashMap<u16, String> = texts_read(read);
    if pack.bitmaps.len() == 0 {
        return Err(text_from("runtime pack contains no UI bitmaps"));
    }
    Ok(assets_from(pack, strings))
}

// ---- Files one by one ------------------------------------------------------

/// The texts of a string table that lies in a file of its own: none where the
/// file is missing or cannot be read as a table.
pub fn loose_texts(file: Option<&[u8]>) -> (table: HashMap<u16, String>)
    ensures
        texts(table@) == match file {
            Some(data) => texts_or_none(Some(data@), json_texts(data@)),
            None => Map::empty(),
        },
{
    let read: Option<Result<HashMap<u16, String>, String>> = match file {
        Some(data) => Some(read_texts(data)),
        None => None,
    };
    texts_read(read)
}

/// How many data files are read where they are there.
pub const OPTIONAL_FILES: usize = 34;

/// The `i`th data file that is read where it is there.
pub open spec fn optional_file(i: int) -> Seq<char> {
    if i == 0 {
        "GNPRTB.DAT"@
    } else if i == 1 {
        "SDPRTB.DAT"@
    } else if i == 2 {
        "DEFFACSD.DAT"@
    } else if i == 3 {
        "SYFCCRTB.DAT"@
    } else if i == 4 {
        "SYFCRMTB.DAT"@
    } else if i == 5 {
        "CMUNEFTB.DAT"@
    } else if i == 6 {
        "CMUNAFTB.DAT"@
    } else if i == 7 {
        "CMUNEMTB.DAT"@
    } else if i == 8 {
        "CMUNALTB.DAT"@
    } else if i == 9 {
        "CMUNCRTB.DAT"@
    } else if i == 10 {
        "CMUNHQTB.DAT"@
    } else if i == 11 {
        "CMUNYVTB.DAT"@
    } else if i == 12 {
        "FACLCRTB.DAT"@
    } else if i == 13 {
        "FACLHQTB.DAT"@
    } else if i == 14 {
        "DIPLMSTB.DAT"@
    } else if i == 15 {
        "ESPIMSTB.DAT"@
    } else if i == 16 {
        "ASSNMSTB.DAT"@
    } else if i == 17 {
        "INCTMSTB.DAT"@
    } else if i == 18 {
        "DSSBMSTB.DAT"@
    } else if i == 19 {
        "ABDCMSTB.DAT"@
    } else if i == 20 {
        "RCRTMSTB.DAT"@
    } else if i == 21 {
        "RESCMSTB.DAT"@
    } else if i == 22 {
        "SBTGMSTB.DAT"@
    } else if i == 23 {
        "SUBDMSTB.DAT"@
    } else if i == 24 {
        "ESCAPETB.DAT"@
    } else if i == 25 {
        "FDECOYTB.DAT"@
    } else if i == 26 {
        "FOILTB.DAT"@
    } else if i == 27 {
        "INFORMTB.DAT"@
    } else if i == 28 {
        "CSCRHTTB.DAT"@
    } else if i == 29 {
        "UPRIS1TB.DAT"@
    } else if i == 30 {
        "UPRIS2TB.DAT"@
    } else if i == 31 {
        "RLEVADTB.DAT"@
    } else if i == 32 {
        "RESRCTB.DAT"@
    } else {
        "TDECOYTB.DAT"@
    }
}

/// The `i`th data file that is read where it is there.
pub fn optional_name(i: usize) -> (name: &'static str)
    requires
        i < OPTIONAL_FILES,
    ensures
        name@ == optional_file(i as int),
{
    match i {
        0 => "GNPRTB.DAT",
        1 => "SDPRTB.DAT",
        2 => "DEFFACSD.DAT",
        3 => "SYFCCRTB.DAT",
        4 => "SYFCRMTB.DAT",
        5 => "CMUNEFTB.DAT",
        6 => "CMUNAFTB.DAT",
        7 => "CMUNEMTB.DAT",
        8 => "CMUNALTB.DAT",
        9 => "CMUNCRTB.DAT",
        10 => "CMUNHQTB.DAT",
        11 => "CMUNYVTB.DAT",
        12 => "FACLCRTB.DAT",
        13 => "FACLHQTB.DAT",
        14 => "DIPLMSTB.DAT",
        15 => "ESPIMSTB.DAT",
        16 => "ASSNMSTB.DAT",
        17 => "INCTMSTB.DAT",
        18 => "DSSBMSTB.DAT",
        19 => "ABDCMSTB.DAT",
        20 => "RCRTMSTB.DAT",
        21 => "RESCMSTB.DAT",
        22 => "SBTGMSTB.DAT",
        23 => "SUBDMSTB.DAT",
        24 => "ESCAPETB.DAT",
        25 => "FDECOYTB.DAT",
        26 => "FOILTB.DAT",
        27 => "INFORMTB.DAT",
        28 => "CSCRHTTB.DAT",
        29 => "UPRIS1TB.DAT",
        30 => "UPRIS2TB.DAT",
        31 => "RLEVADTB.DAT",
        32 => "RESRCTB.DAT",
        _ => "TDECOYTB.DAT",
    }
}

/// Where a data file is.
pub fn data_path(name: &str) -> (path: String)
    ensures
        path@ == "data/base/"@ + name@,
{
    join2("data/base/", name)
}

/// Where a bitmap is.
pub fn bitmap_path(dll: &str, id: u32) -> (path: String)
    ensures
        path@ == "data/ui/"@ + dll@ + "/BMP/"@ + decimal(id as nat) + ".bmp"@,
{
    let digits: String = number(id as u64);
    join5("data/ui/", dll, "/BMP/", digits.as_str(), ".bmp")
}

/// The name under which a bitmap is kept.
pub fn bitmap_name(dll: &str, id: u32) -> (name: String)
    ensures
        name@ == dll@ + "/"@ + decimal(id as nat),
{
    let digits: String = number(id as u64);
    join3(dll, "/", digits.as_str())
}

/// Whether progress is shown after so many of so many bitmaps: every fifty,
/// and at the end.
pub fn shows_progress(loaded: usize, total: usize) -> (shown: bool)
    ensures
        shown == (total > 0 && (loaded % 50 == 0 || loaded == total)),
{
    total > 0 && (loaded % 50 == 0 || loaded == total)
}

/// Whether a failure is told by itself: only the first five are.
pub fn tells_failure(failures: usize) -> (told: bool)
    ensures
        told == (failures <= 5),
{
    failures <= 5
}

/// The line above the loading bar.
pub fn loading_text(label: &str, loaded: usize, total: usize) -> (text: String)
    ensures
        text@ == if total == 0 {
            label@
        } else {
            label@ + " ("@ + decimal(loaded as nat) + "/"@ + decimal(total as nat) + ")"@
        },
{
    if total == 0 {
        return text_from(label);
    }
    let done: String = number(loaded as u64);
    let all: String = number(total as u64);
    let mut text: String = join5(label, " (", done.as_str(), "/", all.as_str());
    text.append(")");
    text
}

// ---- The replay gate -------------------------------------------------------

/// The mode in which no replay is asked for.
pub const REPLAY_MODE_ABSENT: u32 = 0;

/// The one supported replay.
pub const REPLAY_MODE_SEED42_V1: u32 = 1;

/// Why a replay could not be made: the stage, and what went wrong there.
#[derive(Debug, PartialEq, Eq)]
pub struct ReplayFailure {
    pub stage: &'static str,
    pub detail: String,
}

/// Whether a replay is asked for.
pub fn replay_requested(mode: u32) -> (requested: bool)
    ensures
        requested == (mode != REPLAY_MODE_ABSENT),
{
    mode != REPLAY_MODE_ABSENT
}

/// Refuses every replay but the supported one.
pub fn check_replay_mode(mode: u32) -> (checked: Result<(), ReplayFailure>)
    ensures
        match checked {
            Ok(_) => mode == REPLAY_MODE_SEED42_V1,
            Err(failure) => {
                &&& mode != REPLAY_MODE_SEED42_V1
                &&& failure.stage@ == "query"@
                &&& failure.detail@ == "unsupported replay-check query mode "@ + decimal(
                    mode as nat,
                )
            },
        },
{
    if mode == REPLAY_MODE_SEED42_V1 {
        return Ok(());
    }
    let shown: String = number(mode as u64);
    Err(
        ReplayFailure {
            stage: "query",
            detail: join2("unsupported replay-check query mode ", shown.as_str()),
        },
    )
}

/// Parses the pack of a replay.
pub fn open_replay_pack(bytes: &[u8]) -> (opened: Result<RuntimePack, ReplayFailure>)
    ensures
        match opened {
            Ok(pack) => read_pack(bytes@) == Ok::<Pack, Fault>(pack@),
            Err(failure) => {
                &&& read_pack(bytes@) is Err
                &&& failure.stage@ == "runtime_pack_decode"@
                &&& failure.detail@ == fault_text(read_pack(bytes@)->Err_0)
            },
        },
{
    match parse_runtime_pack(bytes) {
        Ok(pack) => Ok(pack),
        Err(error) => Err(
            ReplayFailure { stage: "runtime_pack_decode", detail: error.message() },
        ),
    }
}

/// The position of the `i`th file, if it is one of the data files that decide
/// a replay.
pub open spec fn data_file(files: Seq<(Seq<char>, Seq<u8>)>) -> spec_fn(int) -> Option<usize> {
    |i: int|
        if ends_upper(files[i].0, ".DAT"@) {
            Some(i as usize)
        } else {
            None
        }
}

/// The positions of the data files that decide a replay.
pub fn data_files(files: &FileTable) -> (found: Vec<usize>)
    ensures
        found@ == collect(files@.len(), data_file(files@)),
{
    let ghost f = data_file(files@);
    let mut found: Vec<usize> = Vec::new();
    for i in 0..files.entries.len()
        invariant
            f == data_file(files@),
            found@ == collect(i as nat, f),
    {
        assert(files@[i as int].0 == files.entries@[i as int].0@);
        if ends_with_upper(files.entries[i].0.as_str(), ".DAT") {
            found.push(i);
        }
    }
    found
}

/// What becomes of a string table that a replay cannot do without.
pub fn replay_texts(read: Option<Result<HashMap<u16, String>, String>>) -> (checked: Result<
    HashMap<u16, String>,
    ReplayFailure,
>)
    ensures
        match (read, checked) {
            (Some(Ok(t)), Ok(strings)) => texts(strings@) == texts(t@),
            (Some(Err(words)), Err(failure)) => failure.stage@ == "string_table"@
                && failure.detail@ == "textstra.json is malformed: "@ + words@,
            (None, Err(failure)) => failure.stage@ == "string_table"@ && failure.detail@
                == "runtime pack is missing textstra.json"@,
            _ => false,
        },
{
    match read {
        Some(Ok(table)) => Ok(table),
        Some(Err(words)) => Err(
            ReplayFailure {
                stage: "string_table",
                detail: join2("textstra.json is malformed: ", words.as_str()),
            },
        ),
        None => Err(
            ReplayFailure {
                stage: "string_table",
                detail: text_from("runtime pack is missing textstra.json"),
            },
        ),
    }
}

/// Takes the string table out of the pack of a replay.
pub fn take_replay_texts(pack: &mut RuntimePack) -> (checked: Result<
    HashMap<u16, String>,
    ReplayFailure,
>)
    ensures
        final(pack)@ == (Pack {
            game_files: without_file(old(pack)@.game_files, texts_name()),
            ..old(pack)@
        }),
        match (file_data(old(pack)@.game_files, texts_name()), checked) {
            (None, Err(failure)) => failure.stage@ == "string_table"@ && failure.detail@
                == "runtime pack is missing textstra.json"@,
            (Some(data), Ok(strings)) => json_texts(data) == Ok::<Map<u16, Seq<char>>, Seq<char>>(
                texts(strings@),
            ),
            (Some(data), Err(failure)) => {
                &&& json_texts(data) is Err
                &&& failure.stage@ == "string_table"@
                &&& failure.detail@ == "textstra.json is malformed: "@ + json_texts(data)->Err_0
            },
            _ => false,
        },
{
    let read: Option<Result<HashMap<u16, String>, String>> = match pack.game_files.remove(
        "textstra.json",
    ) {
        Some(data) => Some(read_texts(data.as_slice())),
        None => None,
    };
    replay_texts(read)
}

/// The words under the result of a replay.
pub fn replay_detail(error: Option<&str>) -> (detail: String)
    ensures
        detail@ == match error {
            Some(words) => words@,
            None => "all nine checkpoints matched"@,
        },
{
    match error {
        Some(words) => text_from(words),
        None => text_from("all nine checkpoints matched"),
    }
}

// ---- Laws ------------------------------------------------------------------

/// Installing loses no file: what is not the string table is handed on.
pub proof fn law_only_the_texts_are_taken(files: Seq<(Seq<char>, Seq<u8>)>, name: Seq<char>)
    requires
        name != texts_name(),
    ensures
        has_file(without_file(files, texts_name()), name) == has_file(files, name),
{
    lemma_file_at(files, texts_name(), 0);
    let rest = without_file(files, texts_name());
    match file_at(files, texts_name(), 0) {
        None => {},
        Some(k) => {
            if has_file(files, name) {
                let i = choose|i: int| 0 <= i < files.len() && (#[trigger] files[i]).0 == name;
                if i < k {
                    assert(rest[i] == files[i]);
                } else {
                    assert(rest[i - 1] == files[i]);
                }
            }
            if has_file(rest, name) {
                let i = choose|i: int| 0 <= i < rest.len() && (#[trigger] rest[i]).0 == name;
                if i < k {
                    assert(files[i] == rest[i]);
                } else {
                    assert(files[i + 1] == rest[i]);
                }
            }
        },
    }
}

proof fn lemma_file_at(files: Seq<(Seq<char>, Seq<u8>)>, name: Seq<char>, from: nat)
    ensures
        file_at(files, name, from) matches Some(k) ==> from <= k < files.len()
            && files[k as int].0 == name,
    decreases files.len() - from,
{
    if from < files.len() && files[from as int].0 != name {
        lemma_file_at(files, name, from + 1);
    }
}

/// A pack that can be installed has every required file.
pub proof fn law_installed_packs_are_complete(read: Result<Pack, Fault>, i: int)
    requires
        refusal(read) is None,
        0 <= i < REQUIRED_FILES,
    ensures
        has_file(read->Ok_0.game_files, required_file(i)),
{
    lemma_none_missing(read->Ok_0.game_files, 0, i);
}

proof fn lemma_none_missing(files: Seq<(Seq<char>, Seq<u8>)>, from: nat, i: int)
    requires
        first_missing(files, from) is None,
        from <= i < REQUIRED_FILES,
    ensures
        has_file(files, required_file(i)),
    decreases REQUIRED_FILES - from,
{
    if from < i {
        lemma_none_missing(files, from + 1, i);
    }
}

} // verus!
