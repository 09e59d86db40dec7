//! What every asset pack must look like, byte by byte, and what is made of it.

use crate::assets::{
    advisor_bitmap, first_missing, is_advisor_bitmap, refusal, required_file, REQUIRED_FILES,
};
use crate::runtime_pack::{
    fault_text, files_of, has_file, le16, le32, read_entries, read_entry, read_pack, Fault, Pack,
};
use crate::select::{collect, lemma_collect_covers};
use crate::text::stands_at;
use vstd::prelude::*;
use vstd::utf8::{decode_utf8, valid_utf8};

verus! {

/// A pack begins with twelve bytes: the letters ORPK, version two, no flags,
/// and the number of entries, ten thousand at the most, low bytes first. What
/// is wrong first is what is told.
pub proof fn law_headers_are_checked(bytes: Seq<u8>)
    ensures
        ({
            let read = read_pack(bytes);
            let marked = bytes[0] == 0x4f && bytes[1] == 0x52 && bytes[2] == 0x50 && bytes[3]
                == 0x4b;
            let version = bytes[4] + 256 * bytes[5];
            let flags = bytes[6] + 256 * bytes[7];
            let count = bytes[8] + 256 * (bytes[9] + 256 * (bytes[10] + 256 * bytes[11]));
            &&& bytes.len() < 12 ==> read == Err::<Pack, Fault>(Fault::Truncated("header"@))
            &&& bytes.len() >= 12 && !marked ==> read == Err::<Pack, Fault>(Fault::InvalidMagic)
            &&& bytes.len() >= 12 && marked && version != 2 ==> read == Err::<Pack, Fault>(
                Fault::UnsupportedVersion(version as u16),
            )
            &&& bytes.len() >= 12 && marked && version == 2 && flags != 0 ==> read == Err::<
                Pack,
                Fault,
            >(Fault::UnsupportedFlags(flags as u16))
            &&& bytes.len() >= 12 && marked && version == 2 && flags == 0 && count > 10000 ==> read
                == Err::<Pack, Fault>(Fault::TooManyEntries(count as u32))
            &&& bytes.len() == 12 && marked && version == 2 && flags == 0 && count == 0 ==> {
                let pack = read->Ok_0;
                &&& read is Ok
                &&& pack.game_files.len() == 0 && pack.bitmaps.len() == 0
                &&& pack.audio_files.len() == 0 && pack.advisor_frames.len() == 0
            }
            &&& bytes.len() > 12 && marked && version == 2 && flags == 0 && count == 0 ==> read
                == Err::<Pack, Fault>(Fault::TrailingBytes(bytes.len() - 12))
            &&& read is Ok ==> bytes.len() >= 12 && marked && version == 2 && flags == 0 && count
                <= 10000
        }),
{
    if bytes.len() >= 12 {
        let head = bytes.subrange(0, 4);
        let magic = seq![0x4fu8, 0x52u8, 0x50u8, 0x4bu8];
        assert(head[0] == bytes[0] && head[1] == bytes[1] && head[2] == bytes[2] && head[3]
            == bytes[3]);
        if bytes[0] == 0x4f && bytes[1] == 0x52 && bytes[2] == 0x50 && bytes[3] == 0x4b {
            assert(head =~= magic);
        } else {
            assert(magic[0] == 0x4f && magic[1] == 0x52 && magic[2] == 0x50 && magic[3] == 0x4b);
        }
    }
}

/// An entry is one byte of kind, two of key length, four of data length, the
/// key and the data. Its key must have one to 512 bytes of UTF-8, all of it
/// must be there, and its kind must be one of four. What is wrong first is
/// what is told.
pub proof fn law_bad_entries_are_refused(bytes: Seq<u8>, at: int, pack: Pack)
    requires
        0 <= at <= bytes.len(),
    ensures
        ({
            let read = read_entry(bytes, at, pack);
            let kind = bytes[at];
            let key_len = bytes[at + 1] + 256 * bytes[at + 2];
            let data_len = bytes[at + 3] + 256 * (bytes[at + 4] + 256 * (bytes[at + 5] + 256
                * bytes[at + 6]));
            let key = bytes.subrange(at + 7, at + 7 + key_len);
            let end = at + 7 + key_len + data_len;
            let whole = at + 7 <= bytes.len();
            let keyed = whole && 1 <= key_len <= 512 && at + 7 + key_len <= bytes.len();
            let fails = |fault: Fault| read == Err::<(Pack, int), Fault>(fault);
            &&& !whole ==> fails(Fault::Truncated("entry header"@))
            &&& whole && key_len == 0 ==> fails(Fault::EmptyKey)
            &&& whole && key_len > 512 ==> fails(Fault::KeyTooLong(key_len as u16))
            &&& whole && 1 <= key_len <= 512 && at + 7 + key_len > bytes.len() ==> fails(
                Fault::Truncated("entry key"@),
            )
            &&& keyed && !valid_utf8(key) ==> fails(Fault::InvalidUtf8)
            &&& keyed && valid_utf8(key) && end > bytes.len() ==> fails(
                Fault::Truncated("entry data"@),
            )
            &&& keyed && valid_utf8(key) && end <= bytes.len() && kind > 3 ==> fails(
                Fault::UnknownKind(kind),
            )
        }),
{
    if at + 7 <= bytes.len() {
        let key_len = bytes[at + 1] + 256 * bytes[at + 2];
        assert(le16(bytes, at + 1) == key_len);
        let data_len = bytes[at + 3] + 256 * (bytes[at + 4] + 256 * (bytes[at + 5] + 256 * bytes[at
            + 6]));
        assert(le32(bytes, at + 3) == data_len);
    }
}

/// A sound entry joins the files of its kind, behind the others, and no other
/// files, unless one of its kind, which are `files`, has its name already.
pub proof fn law_good_entries_are_filed(
    bytes: Seq<u8>,
    at: int,
    pack: Pack,
    files: Seq<(Seq<char>, Seq<u8>)>,
    twin: int,
)
    requires
        0 <= at,
        at + 7 <= bytes.len(),
        bytes[at] <= 3,
        files == match bytes[at] {
            0 => pack.game_files,
            1 => pack.bitmaps,
            2 => pack.audio_files,
            _ => pack.advisor_frames,
        },
        ({
            let key_len = bytes[at + 1] + 256 * bytes[at + 2];
            let data_len = bytes[at + 3] + 256 * (bytes[at + 4] + 256 * (bytes[at + 5] + 256
                * bytes[at + 6]));
            &&& 1 <= key_len <= 512
            &&& at + 7 + key_len + data_len <= bytes.len()
            &&& valid_utf8(bytes.subrange(at + 7, at + 7 + key_len))
        }),
    ensures
        ({
            let read = read_entry(bytes, at, pack);
            let kind = bytes[at];
            let key_len = bytes[at + 1] + 256 * bytes[at + 2];
            let data_len = bytes[at + 3] + 256 * (bytes[at + 4] + 256 * (bytes[at + 5] + 256
                * bytes[at + 6]));
            let key = bytes.subrange(at + 7, at + 7 + key_len);
            let end = at + 7 + key_len + data_len;
            let file = (decode_utf8(key), bytes.subrange(at + 7 + key_len, end));
            let more = (read->Ok_0).0;
            &&& 0 <= twin < files.len() && files[twin].0 == file.0 ==> read == Err::<
                (Pack, int),
                Fault,
            >(Fault::DuplicateKey(file.0))
            &&& (forall|i: int| 0 <= i < files.len() ==> (#[trigger] files[i]).0 != file.0)
                ==> read is Ok
            &&& read is Ok ==> {
                &&& (read->Ok_0).1 == end
                &&& kind == 0 ==> more == (Pack { game_files: pack.game_files.push(file), ..pack })
                &&& kind == 1 ==> more == (Pack { bitmaps: pack.bitmaps.push(file), ..pack })
                &&& kind == 2 ==> more == (Pack {
                    audio_files: pack.audio_files.push(file),
                    ..pack
                })
                &&& kind == 3 ==> more == (Pack {
                    advisor_frames: pack.advisor_frames.push(file),
                    ..pack
                })
            }
        }),
{
    if at + 7 <= bytes.len() {
        let key_len = bytes[at + 1] + 256 * bytes[at + 2];
        assert(le16(bytes, at + 1) == key_len);
        let data_len = bytes[at + 3] + 256 * (bytes[at + 4] + 256 * (bytes[at + 5] + 256 * bytes[at
            + 6]));
        assert(le32(bytes, at + 3) == data_len);
    }
    assert(files_of(pack, bytes[at]) == files);
    let key_len = bytes[at + 1] + 256 * bytes[at + 2];
    let name = decode_utf8(bytes.subrange(at + 7, at + 7 + key_len));
    if 0 <= twin < files.len() && files[twin].0 == name {
        assert(has_file(files, name));
    }
}

/// Entries are read one after the other, and the first that is wrong decides.
/// Nothing may follow the last.
pub proof fn law_entries_follow_each_other(bytes: Seq<u8>, at: int, left: nat, pack: Pack)
    ensures
        ({
            let read = read_entries(bytes, at, left, pack);
            let first = read_entry(bytes, at, pack);
            &&& left == 0 && at == bytes.len() ==> read == Ok::<Pack, Fault>(pack)
            &&& left == 0 && at < bytes.len() ==> read == Err::<Pack, Fault>(
                Fault::TrailingBytes(bytes.len() - at),
            )
            &&& left > 0 && first is Err ==> read == Err::<Pack, Fault>(first->Err_0)
            &&& left > 0 && first is Ok ==> read == read_entries(
                bytes,
                (first->Ok_0).1,
                (left - 1) as nat,
                (first->Ok_0).0,
            )
        }),
{
}

/// A pack is installed exactly if it can be read, has every required file and
/// at least one bitmap. `i` is the first required file that it lacks.
pub proof fn law_what_can_be_installed(read: Result<Pack, Fault>, i: nat)
    requires
        i <= REQUIRED_FILES,
        read matches Ok(pack) ==> (forall|j: int|
            0 <= j < i ==> has_file(pack.game_files, #[trigger] required_file(j))) && (i
            < REQUIRED_FILES ==> !has_file(pack.game_files, required_file(i as int))),
    ensures
        read matches Err(fault) ==> refusal(read) == Some(fault_text(fault)),
        read matches Ok(pack) ==> {
            &&& i < REQUIRED_FILES ==> refusal(read) == Some(
                "required entry is missing: "@ + required_file(i as int),
            )
            &&& i == REQUIRED_FILES && pack.bitmaps.len() == 0 ==> refusal(read) == Some(
                "runtime pack contains no UI bitmaps"@,
            )
            &&& i == REQUIRED_FILES && pack.bitmaps.len() > 0 ==> refusal(read) is None
        },
{
    if let Ok(pack) = read {
        lemma_missing(pack, i, i);
    }
}

proof fn lemma_missing(pack: Pack, i: nat, left: nat)
    requires
        left <= i <= REQUIRED_FILES,
        forall|j: int| 0 <= j < i ==> has_file(pack.game_files, #[trigger] required_file(j)),
    ensures
        first_missing(pack.game_files, (i - left) as nat) == first_missing(pack.game_files, i),
    decreases left,
{
    if left > 0 {
        assert(has_file(pack.game_files, required_file(i - left)));
        lemma_missing(pack, i, (left - 1) as nat);
    }
}

/// A bitmap is one of the advisors' exactly if its name begins with one of the
/// two advisors' libraries, and each of those is handed on.
pub proof fn law_advisors_keep_their_bitmaps(bitmaps: Seq<(Seq<char>, Seq<u8>)>, i: int)
    requires
        0 <= i < bitmaps.len(),
    ensures
        ({
            let name = bitmaps[i].0;
            let theirs = name.len() >= 13 && (name.subrange(0, 13) == "alsprite-dll/"@
                || name.subrange(0, 13) == "emsprite-dll/"@);
            &&& is_advisor_bitmap(name) <==> theirs
            &&& theirs ==> collect(bitmaps.len(), advisor_bitmap(bitmaps)).contains(bitmaps[i])
        }),
{
    reveal_strlit("alsprite-dll/");
    reveal_strlit("emsprite-dll/");
    let name = bitmaps[i].0;
    lemma_begins(name, "alsprite-dll/"@);
    lemma_begins(name, "emsprite-dll/"@);
    let f = advisor_bitmap(bitmaps);
    lemma_collect_covers(bitmaps.len(), f);
    if is_advisor_bitmap(name) {
        assert(f(i) == Some(bitmaps[i]));
    }
}

proof fn lemma_begins(text: Seq<char>, word: Seq<char>)
    ensures
        stands_at(text, word, 0) <==> text.len() >= word.len() && text.subrange(
            0,
            word.len() as int,
        ) == word,
{
    if text.len() >= word.len() {
        let start = text.subrange(0, word.len() as int);
        if start == word {
            assert forall|k: int| 0 <= k < word.len() implies text[0 + k] == #[trigger] word[k] by {
                assert(start[k] == text[k]);
            }
        }
        if stands_at(text, word, 0) {
            assert forall|k: int| 0 <= k < word.len() implies start[k] == word[k] by {
                assert(text[0 + k] == word[k]);
            }
            assert(start =~= word);
        }
    }
}

} // verus!
