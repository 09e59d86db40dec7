//! The runtime asset pack: one file with all game data for the browser.
//!
//! A pack starts with twelve bytes: the letters `ORPK`, a version, flags and a
//! count of entries. Each entry has seven bytes of its own, kind, key length
//! and data length, and then its key and its data. All numbers are little
//! endian. Nothing may follow the last entry.

use crate::text::{append_decimal, append_hex4, decimal, hex4, same_text, text_from};
use vstd::prelude::*;
use vstd::slice::{slice_subrange, slice_to_vec};
use vstd::string::*;
use vstd::utf8::{decode_utf8, encode_utf8, valid_utf8};

verus! {

/// The supported version.
pub const VERSION: u16 = 2;

/// Bytes before the first entry.
pub const HEADER_LEN: usize = 12;

/// Bytes before an entry's key.
pub const ENTRY_HEADER_LEN: usize = 7;

/// The most entries a pack may have.
pub const MAX_ENTRIES: usize = 10_000;

/// The most bytes a key may have.
pub const MAX_KEY_LEN: usize = 512;

/// Kind of a game data entry.
pub const KIND_GAME_DATA: u8 = 0;

/// Kind of a bitmap entry.
pub const KIND_BITMAP: u8 = 1;

/// Kind of an audio entry.
pub const KIND_AUDIO: u8 = 2;

/// Kind of an advisor frame entry.
pub const KIND_ADVISOR_FRAME: u8 = 3;

// ---- Files -----------------------------------------------------------------

/// Named files, each name at most once.
#[derive(Debug, PartialEq, Eq)]
pub struct FileTable {
    pub entries: Vec<(String, Vec<u8>)>,
}

impl View for FileTable {
    type V = Seq<(Seq<char>, Seq<u8>)>;

    open spec fn view(&self) -> Seq<(Seq<char>, Seq<u8>)> {
        Seq::new(self.entries@.len(), |i: int| (self.entries@[i].0@, self.entries@[i].1@))
    }
}

/// Whether a list of files has a name.
pub open spec fn has_file(files: Seq<(Seq<char>, Seq<u8>)>, name: Seq<char>) -> bool {
    exists|i: int| 0 <= i < files.len() && (#[trigger] files[i]).0 == name
}

/// Where a file stands, from position `from` on.
pub open spec fn file_at(files: Seq<(Seq<char>, Seq<u8>)>, name: Seq<char>, from: nat) -> Option<nat>
    decreases files.len() - from,
{
    if from >= files.len() {
        None
    } else if files[from as int].0 == name {
        Some(from)
    } else {
        file_at(files, name, from + 1)
    }
}

/// The data of a file.
pub open spec fn file_data(files: Seq<(Seq<char>, Seq<u8>)>, name: Seq<char>) -> Option<Seq<u8>> {
    match file_at(files, name, 0) {
        Some(i) => Some(files[i as int].1),
        None => None,
    }
}

/// The files without one of them.
pub open spec fn without_file(files: Seq<(Seq<char>, Seq<u8>)>, name: Seq<char>) -> Seq<
    (Seq<char>, Seq<u8>),
> {
    match file_at(files, name, 0) {
        Some(i) => files.remove(i as int),
        None => files,
    }
}

/// Whether no name stands twice.
pub open spec fn names_differ(files: Seq<(Seq<char>, Seq<u8>)>) -> bool {
    forall|i: int, j: int|
        0 <= i < j < files.len() ==> (#[trigger] files[i]).0 != (#[trigger] files[j]).0
}

impl FileTable {
    /// No files.
    pub fn new() -> (table: Self)
        ensures
            table@ == Seq::<(Seq<char>, Seq<u8>)>::empty(),
    {
        let table: FileTable = FileTable { entries: Vec::new() };
        assert(table@ =~= Seq::<(Seq<char>, Seq<u8>)>::empty());
        table
    }

    /// How many files there are.
    pub fn len(&self) -> (count: usize)
        ensures
            count == self@.len(),
    {
        self.entries.len()
    }

    /// Where a file stands.
    fn position(&self, name: &str) -> (at: Option<usize>)
        ensures
            match (at, file_at(self@, name@, 0)) {
                (Some(i), Some(k)) => i == k && i < self@.len() && self@[i as int].0 == name@,
                (None, None) => true,
                _ => false,
            },
            at is Some <==> has_file(self@, name@),
    {
        for i in 0..self.entries.len()
            invariant
                file_at(self@, name@, 0) == file_at(self@, name@, i as nat),
                forall|j: int| 0 <= j < i ==> (#[trigger] self@[j]).0 != name@,
        {
            if same_text(self.entries[i].0.as_str(), name) {
                assert(self@[i as int].0 == name@);
                return Some(i);
            }
            assert(self@[i as int].0 != name@);
        }
        None
    }

    /// Whether there is a file of that name.
    pub fn contains_key(&self, name: &str) -> (found: bool)
        ensures
            found == has_file(self@, name@),
    {
        self.position(name).is_some()
    }

    /// The data of a file.
    pub fn get(&self, name: &str) -> (data: Option<&Vec<u8>>)
        ensures
            match (data, file_data(self@, name@)) {
                (Some(d), Some(f)) => d@ == f,
                (None, None) => true,
                _ => false,
            },
            data is Some <==> has_file(self@, name@),
    {
        match self.position(name) {
            Some(i) => Some(&self.entries[i].1),
            None => None,
        }
    }

    /// Takes a file out; the others stay in order.
    pub fn remove(&mut self, name: &str) -> (data: Option<Vec<u8>>)
        ensures
            match (data, file_data(old(self)@, name@)) {
                (Some(d), Some(f)) => d@ == f,
                (None, None) => true,
                _ => false,
            },
            data is Some <==> has_file(old(self)@, name@),
            final(self)@ == without_file(old(self)@, name@),
    {
        match self.position(name) {
            Some(i) => {
                let (_, data): (String, Vec<u8>) = self.entries.remove(i);
                assert(self@ =~= old(self)@.remove(i as int));
                Some(data)
            },
            None => None,
        }
    }

    /// Adds a file behind the others.
    pub(crate) fn add(&mut self, name: String, data: Vec<u8>)
        ensures
            final(self)@ == old(self)@.push((name@, data@)),
    {
        self.entries.push((name, data));
        assert(self@ =~= old(self)@.push((name@, data@)));
    }
}

/// A parsed pack.
#[derive(Debug, PartialEq, Eq)]
pub struct RuntimePack {
    pub game_files: FileTable,
    pub bitmaps: FileTable,
    pub audio_files: FileTable,
    pub advisor_frames: FileTable,
}

/// What a pack holds.
pub struct Pack {
    pub game_files: Seq<(Seq<char>, Seq<u8>)>,
    pub bitmaps: Seq<(Seq<char>, Seq<u8>)>,
    pub audio_files: Seq<(Seq<char>, Seq<u8>)>,
    pub advisor_frames: Seq<(Seq<char>, Seq<u8>)>,
}

impl View for RuntimePack {
    type V = Pack;

    open spec fn view(&self) -> Pack {
        Pack {
            game_files: self.game_files@,
            bitmaps: self.bitmaps@,
            audio_files: self.audio_files@,
            advisor_frames: self.advisor_frames@,
        }
    }
}

/// Why a pack was refused.
#[derive(Debug, Clone, PartialEq, Eq)]
pub enum PackError {
    Truncated(&'static str),
    InvalidMagic,
    UnsupportedVersion(u16),
    UnsupportedFlags(u16),
    TooManyEntries(u32),
    EmptyKey,
    KeyTooLong(u16),
    InvalidUtf8,
    UnknownKind(u8),
    DuplicateKey(String),
    TrailingBytes(usize),
}

/// What a [`PackError`] says.
pub enum Fault {
    Truncated(Seq<char>),
    InvalidMagic,
    UnsupportedVersion(u16),
    UnsupportedFlags(u16),
    TooManyEntries(u32),
    EmptyKey,
    KeyTooLong(u16),
    InvalidUtf8,
    UnknownKind(u8),
    DuplicateKey(Seq<char>),
    TrailingBytes(int),
}

impl View for PackError {
    type V = Fault;

    open spec fn view(&self) -> Fault {
        match *self {
            PackError::Truncated(section) => Fault::Truncated(section@),
            PackError::InvalidMagic => Fault::InvalidMagic,
            PackError::UnsupportedVersion(version) => Fault::UnsupportedVersion(version),
            PackError::UnsupportedFlags(flags) => Fault::UnsupportedFlags(flags),
            PackError::TooManyEntries(count) => Fault::TooManyEntries(count),
            PackError::EmptyKey => Fault::EmptyKey,
            PackError::KeyTooLong(length) => Fault::KeyTooLong(length),
            PackError::InvalidUtf8 => Fault::InvalidUtf8,
            PackError::UnknownKind(kind) => Fault::UnknownKind(kind),
            PackError::DuplicateKey(key) => Fault::DuplicateKey(key@),
            PackError::TrailingBytes(count) => Fault::TrailingBytes(count as int),
        }
    }
}

/// The words for a fault.
pub open spec fn fault_text(fault: Fault) -> Seq<char> {
    match fault {
        Fault::Truncated(section) => "truncated "@ + section,
        Fault::InvalidMagic => "invalid runtime-pack magic"@,
        Fault::UnsupportedVersion(version) => "unsupported runtime-pack version "@ + decimal(
            version as nat,
        ),
        Fault::UnsupportedFlags(flags) => "unsupported runtime-pack flags "@ + hex4(flags),
        Fault::TooManyEntries(count) => "runtime pack declares too many entries: "@ + decimal(
            count as nat,
        ),
        Fault::EmptyKey => "runtime-pack entry has an empty key"@,
        Fault::KeyTooLong(length) => "runtime-pack key is too long: "@ + decimal(length as nat)
            + " bytes"@,
        Fault::InvalidUtf8 => "runtime-pack key is not valid UTF-8"@,
        Fault::UnknownKind(kind) => "unknown runtime-pack entry kind "@ + decimal(kind as nat),
        Fault::DuplicateKey(key) => "duplicate runtime-pack key "@ + key,
        Fault::TrailingBytes(count) => "runtime pack contains "@ + decimal(count as nat)
            + " trailing bytes"@,
    }
}

impl PackError {
    /// The error in words.
    pub fn message(&self) -> (text: String)
        ensures
            text@ == fault_text(self@),
    {
        match self {
            PackError::Truncated(section) => {
                let mut text: String = text_from("truncated ");
                text.append(section);
                text
            },
            PackError::InvalidMagic => text_from("invalid runtime-pack magic"),
            PackError::UnsupportedVersion(version) => {
                let mut text: String = text_from("unsupported runtime-pack version ");
                append_decimal(&mut text, *version as u64);
                text
            },
            PackError::UnsupportedFlags(flags) => {
                let mut text: String = text_from("unsupported runtime-pack flags ");
                append_hex4(&mut text, *flags);
                text
            },
            PackError::TooManyEntries(count) => {
                let mut text: String = text_from("runtime pack declares too many entries: ");
                append_decimal(&mut text, *count as u64);
                text
            },
            PackError::EmptyKey => text_from("runtime-pack entry has an empty key"),
            PackError::KeyTooLong(length) => {
                let mut text: String = text_from("runtime-pack key is too long: ");
                append_decimal(&mut text, *length as u64);
                text.append(" bytes");
                text
            },
            PackError::InvalidUtf8 => text_from("runtime-pack key is not valid UTF-8"),
            PackError::UnknownKind(kind) => {
                let mut text: String = text_from("unknown runtime-pack entry kind ");
                append_decimal(&mut text, *kind as u64);
                text
            },
            PackError::DuplicateKey(key) => {
                let mut text: String = text_from("duplicate runtime-pack key ");
                text.append(key.as_str());
                text
            },
            PackError::TrailingBytes(count) => {
                let mut text: String = text_from("runtime pack contains ");
                append_decimal(&mut text, *count as u64);
                text.append(" trailing bytes");
                text
            },
        }
    }
}

// ---- Format ----------------------------------------------------------------

/// Two bytes, the low one first.
pub open spec fn le16(bytes: Seq<u8>, at: int) -> int {
    bytes[at] + 256 * bytes[at + 1]
}

/// Four bytes, the low one first.
pub open spec fn le32(bytes: Seq<u8>, at: int) -> int {
    bytes[at] + 256 * bytes[at + 1] + 65536 * bytes[at + 2] + 16777216 * bytes[at + 3]
}

/// The table of a pack that entries of a kind go to.
pub open spec fn files_of(pack: Pack, kind: u8) -> Seq<(Seq<char>, Seq<u8>)> {
    if kind == KIND_GAME_DATA {
        pack.game_files
    } else if kind == KIND_BITMAP {
        pack.bitmaps
    } else if kind == KIND_AUDIO {
        pack.audio_files
    } else {
        pack.advisor_frames
    }
}

/// A pack with one more file of a kind.
pub open spec fn with_file(pack: Pack, kind: u8, name: Seq<char>, data: Seq<u8>) -> Pack {
    if kind == KIND_GAME_DATA {
        Pack { game_files: pack.game_files.push((name, data)), ..pack }
    } else if kind == KIND_BITMAP {
        Pack { bitmaps: pack.bitmaps.push((name, data)), ..pack }
    } else if kind == KIND_AUDIO {
        Pack { audio_files: pack.audio_files.push((name, data)), ..pack }
    } else {
        Pack { advisor_frames: pack.advisor_frames.push((name, data)), ..pack }
    }
}

/// A pack without files.
pub open spec fn bare_pack() -> Pack {
    Pack {
        game_files: Seq::empty(),
        bitmaps: Seq::empty(),
        audio_files: Seq::empty(),
        advisor_frames: Seq::empty(),
    }
}

/// What one entry at `at` adds to a pack, and where the next one starts.
pub open spec fn read_entry(bytes: Seq<u8>, at: int, pack: Pack) -> Result<(Pack, int), Fault> {
    let key_at = at + ENTRY_HEADER_LEN;
    if key_at > bytes.len() {
        Err(Fault::Truncated("entry header"@))
    } else {
        let kind = bytes[at];
        let key_len = le16(bytes, at + 1);
        let data_at = key_at + key_len;
        let next = data_at + le32(bytes, at + 3);
        if key_len == 0 {
            Err(Fault::EmptyKey)
        } else if key_len > MAX_KEY_LEN {
            Err(Fault::KeyTooLong(key_len as u16))
        } else if data_at > bytes.len() {
            Err(Fault::Truncated("entry key"@))
        } else if !valid_utf8(bytes.subrange(key_at, data_at)) {
            Err(Fault::InvalidUtf8)
        } else if next > bytes.len() {
            Err(Fault::Truncated("entry data"@))
        } else if kind > KIND_ADVISOR_FRAME {
            Err(Fault::UnknownKind(kind))
        } else {
            let name = decode_utf8(bytes.subrange(key_at, data_at));
            if has_file(files_of(pack, kind), name) {
                Err(Fault::DuplicateKey(name))
            } else {
                Ok((with_file(pack, kind, name, bytes.subrange(data_at, next)), next))
            }
        }
    }
}

/// The pack after `left` more entries from `at` on, with nothing behind them.
pub open spec fn read_entries(bytes: Seq<u8>, at: int, left: nat, pack: Pack) -> Result<Pack, Fault>
    decreases left,
{
    if left == 0 {
        if at == bytes.len() {
            Ok(pack)
        } else {
            Err(Fault::TrailingBytes(bytes.len() - at))
        }
    } else {
        match read_entry(bytes, at, pack) {
            Ok((more, next)) => read_entries(bytes, next, (left - 1) as nat, more),
            Err(fault) => Err(fault),
        }
    }
}

/// What a pack file holds.
pub open spec fn read_pack(bytes: Seq<u8>) -> Result<Pack, Fault> {
    if bytes.len() < HEADER_LEN {
        Err(Fault::Truncated("header"@))
    } else if bytes.subrange(0, 4) != seq![0x4fu8, 0x52u8, 0x50u8, 0x4bu8] {
        Err(Fault::InvalidMagic)
    } else if le16(bytes, 4) != VERSION {
        Err(Fault::UnsupportedVersion(le16(bytes, 4) as u16))
    } else if le16(bytes, 6) != 0 {
        Err(Fault::UnsupportedFlags(le16(bytes, 6) as u16))
    } else if le32(bytes, 8) > MAX_ENTRIES {
        Err(Fault::TooManyEntries(le32(bytes, 8) as u32))
    } else {
        read_entries(bytes, HEADER_LEN as int, le32(bytes, 8) as nat, bare_pack())
    }
}

// ---- Parsing ---------------------------------------------------------------

/// Calls `std::str::from_utf8`, which accepts exactly the valid UTF-8 byte
/// strings and gives back the text they encode.
#[verifier::external_body]
fn text_of(bytes: &[u8]) -> (text: Option<&str>)
    ensures
        text is Some <==> valid_utf8(bytes@),
        text matches Some(t) ==> t@ == decode_utf8(bytes@),
{
    std::str::from_utf8(bytes).ok()
}

/// Reads two bytes, the low one first.
fn read_le16(bytes: &[u8], at: usize) -> (value: u16)
    requires
        at + 2 <= bytes@.len(),
    ensures
        value == le16(bytes@, at as int),
{
    bytes[at] as u16 + 256 * bytes[at + 1] as u16
}

/// Reads four bytes, the low one first.
fn read_le32(bytes: &[u8], at: usize) -> (value: u32)
    requires
        at + 4 <= bytes@.len(),
    ensures
        value == le32(bytes@, at as int),
{
    bytes[at] as u32 + 256 * bytes[at + 1] as u32 + 65536 * bytes[at + 2] as u32 + 16777216
        * bytes[at + 3] as u32
}

/// Takes the next `length` bytes.
fn take<'a>(bytes: &'a [u8], cursor: &mut usize, length: usize, section: &'static str) -> (taken:
    Result<&'a [u8], PackError>)
    requires
        *old(cursor) <= bytes@.len(),
    ensures
        match taken {
            Ok(slice) => {
                &&& *old(cursor) + length <= bytes@.len()
                &&& slice@ == bytes@.subrange(*old(cursor) as int, *old(cursor) + length)
                &&& *final(cursor) == *old(cursor) + length
            },
            Err(error) => {
                &&& *old(cursor) + length > bytes@.len()
                &&& error@ == Fault::Truncated(section@)
                &&& *final(cursor) == *old(cursor)
            },
        },
{
    if length > bytes.len() - *cursor {
        return Err(PackError::Truncated(section));
    }
    let end: usize = *cursor + length;
    let slice: &'a [u8] = slice_subrange(bytes, *cursor, end);
    *cursor = end;
    Ok(slice)
}

impl RuntimePack {
    /// Reads one entry into the pack.
    fn read(&mut self, bytes: &[u8], cursor: &mut usize) -> (done: Result<(), PackError>)
        requires
            *old(cursor) <= bytes@.len(),
        ensures
            match done {
                Ok(_) => {
                    &&& read_entry(bytes@, *old(cursor) as int, old(self)@) == Ok::<
                        (Pack, int),
                        Fault,
                    >((final(self)@, *final(cursor) as int))
                    &&& *final(cursor) <= bytes@.len()
                },
                Err(error) => read_entry(bytes@, *old(cursor) as int, old(self)@) == Err::<
                    (Pack, int),
                    Fault,
                >(error@),
            },
    {
        let ghost at = *cursor as int;
        let ghost all = bytes@;
        let header: &[u8] = match take(bytes, cursor, ENTRY_HEADER_LEN, "entry header") {
            Ok(header) => header,
            Err(error) => {
                return Err(error);
            },
        };
        let kind: u8 = header[0];
        let key_len: u16 = read_le16(header, 1);
        let data_len: u32 = read_le32(header, 3);
        assert(kind == all[at]);
        assert(key_len == le16(all, at + 1));
        assert(data_len == le32(all, at + 3));
        if key_len == 0 {
            return Err(PackError::EmptyKey);
        }
        if key_len as usize > MAX_KEY_LEN {
            return Err(PackError::KeyTooLong(key_len));
        }
        let key_bytes: &[u8] = match take(bytes, cursor, key_len as usize, "entry key") {
            Ok(key_bytes) => key_bytes,
            Err(error) => {
                return Err(error);
            },
        };
        let key: String = match text_of(key_bytes) {
            Some(key) => text_from(key),
            None => {
                return Err(PackError::InvalidUtf8);
            },
        };
        let data: Vec<u8> = match take(bytes, cursor, data_len as usize, "entry data") {
            Ok(data) => slice_to_vec(data),
            Err(error) => {
                return Err(error);
            },
        };
        if kind > KIND_ADVISOR_FRAME {
            return Err(PackError::UnknownKind(kind));
        }
        let known: bool = match kind {
            0 => self.game_files.contains_key(key.as_str()),
            1 => self.bitmaps.contains_key(key.as_str()),
            2 => self.audio_files.contains_key(key.as_str()),
            _ => self.advisor_frames.contains_key(key.as_str()),
        };
        if known {
            return Err(PackError::DuplicateKey(key));
        }
        match kind {
            0 => self.game_files.add(key, data),
            1 => self.bitmaps.add(key, data),
            2 => self.audio_files.add(key, data),
            _ => self.advisor_frames.add(key, data),
        }
        Ok(())
    }
}

/// Parses a pack.
pub fn parse_runtime_pack(bytes: &[u8]) -> (parsed: Result<RuntimePack, PackError>)
    ensures
        match parsed {
            Ok(pack) => read_pack(bytes@) == Ok::<Pack, Fault>(pack@),
            Err(error) => read_pack(bytes@) == Err::<Pack, Fault>(error@),
        },
{
    if bytes.len() < HEADER_LEN {
        return Err(PackError::Truncated("header"));
    }
    let ghost magic = seq![0x4fu8, 0x52u8, 0x50u8, 0x4bu8];
    let good: bool = bytes[0] == 0x4f && bytes[1] == 0x52 && bytes[2] == 0x50 && bytes[3] == 0x4b;
    proof {
        if good {
            assert(bytes@.subrange(0, 4) =~= magic);
        } else if bytes@.subrange(0, 4) == magic {
            assert(bytes@.subrange(0, 4)[0] == magic[0]);
            assert(bytes@.subrange(0, 4)[1] == magic[1]);
            assert(bytes@.subrange(0, 4)[2] == magic[2]);
            assert(bytes@.subrange(0, 4)[3] == magic[3]);
        }
    }
    if !good {
        return Err(PackError::InvalidMagic);
    }
    let version: u16 = read_le16(bytes, 4);
    if version != VERSION {
        return Err(PackError::UnsupportedVersion(version));
    }
    let flags: u16 = read_le16(bytes, 6);
    if flags != 0 {
        return Err(PackError::UnsupportedFlags(flags));
    }
    let count: u32 = read_le32(bytes, 8);
    if count as usize > MAX_ENTRIES {
        return Err(PackError::TooManyEntries(count));
    }
    let mut cursor: usize = HEADER_LEN;
    let mut pack: RuntimePack = RuntimePack {
        game_files: FileTable::new(),
        bitmaps: FileTable::new(),
        audio_files: FileTable::new(),
        advisor_frames: FileTable::new(),
    };
    let mut left: u32 = count;
    while left > 0
        invariant
            cursor <= bytes@.len(),
            read_pack(bytes@) == read_entries(bytes@, cursor as int, left as nat, pack@),
        decreases left,
    {
        match pack.read(bytes, &mut cursor) {
            Ok(_) => {},
            Err(error) => {
                return Err(error);
            },
        }
        left = left - 1;
    }
    if cursor != bytes.len() {
        return Err(PackError::TrailingBytes(bytes.len() - cursor));
    }
    Ok(pack)
}

// ---- Laws ------------------------------------------------------------------

/// A 16-bit number as two bytes, the low one first.
pub open spec fn put16(n: int) -> Seq<u8> {
    seq![(n % 256) as u8, (n / 256 % 256) as u8]
}

/// A 32-bit number as four bytes, the low one first.
pub open spec fn put32(n: int) -> Seq<u8> {
    seq![
        (n % 256) as u8,
        (n / 256 % 256) as u8,
        (n / 65536 % 256) as u8,
        (n / 16777216 % 256) as u8,
    ]
}

/// An entry, given as kind, name and data, as bytes.
pub open spec fn put_entry(e: (u8, Seq<char>, Seq<u8>)) -> Seq<u8> {
    let key = encode_utf8(e.1);
    seq![e.0] + put16(key.len() as int) + put32(e.2.len() as int) + key + e.2
}

/// The entries from `from` on as bytes.
pub open spec fn put_entries(list: Seq<(u8, Seq<char>, Seq<u8>)>, from: nat) -> Seq<u8>
    decreases list.len() - from,
{
    if from >= list.len() {
        Seq::empty()
    } else {
        put_entry(list[from as int]) + put_entries(list, from + 1)
    }
}

/// The bytes before the first entry.
pub open spec fn put_header(count: nat) -> Seq<u8> {
    seq![0x4fu8, 0x52u8, 0x50u8, 0x4bu8] + put16(VERSION as int) + put16(0) + put32(count as int)
}

/// A list of entries as a pack file.
pub open spec fn put_pack(list: Seq<(u8, Seq<char>, Seq<u8>)>) -> Seq<u8> {
    put_header(list.len()) + put_entries(list, 0)
}

/// Whether an entry can be written: a known kind, a key of one to 512 bytes,
/// and data whose length fits its field.
pub open spec fn writable(e: (u8, Seq<char>, Seq<u8>)) -> bool {
    &&& e.0 <= KIND_ADVISOR_FRAME
    &&& 0 < encode_utf8(e.1).len() <= MAX_KEY_LEN
    &&& e.2.len() <= u32::MAX
}

/// Whether a list of entries can be written: few enough, each writable, and no
/// name twice within a kind.
pub open spec fn all_writable(list: Seq<(u8, Seq<char>, Seq<u8>)>) -> bool {
    &&& list.len() <= MAX_ENTRIES
    &&& forall|i: int| 0 <= i < list.len() ==> writable(#[trigger] list[i])
    &&& forall|i: int, j: int|
        0 <= i < j < list.len() ==> !((#[trigger] list[i]).0 == (#[trigger] list[j]).0 && list[i].1
            == list[j].1)
}

/// The pack that holds the first `n` entries of a list.
pub open spec fn packed(list: Seq<(u8, Seq<char>, Seq<u8>)>, n: nat) -> Pack
    decreases n,
{
    if n == 0 {
        bare_pack()
    } else {
        with_file(packed(list, (n - 1) as nat), list[n - 1].0, list[n - 1].1, list[n - 1].2)
    }
}

/// A number below its limit is read back from its bytes.
proof fn lemma_put16(n: int, bytes: Seq<u8>, at: int)
    requires
        0 <= n < 65536,
        0 <= at,
        at + 2 <= bytes.len(),
        bytes.subrange(at, at + 2) == put16(n),
    ensures
        le16(bytes, at) == n,
{
    assert(bytes.subrange(at, at + 2)[0] == put16(n)[0]);
    assert(bytes.subrange(at, at + 2)[1] == put16(n)[1]);
    assert(n / 256 < 256);
}

/// A number below its limit is read back from its bytes.
proof fn lemma_put32(n: int, bytes: Seq<u8>, at: int)
    requires
        0 <= n < 0x1_0000_0000,
        0 <= at,
        at + 4 <= bytes.len(),
        bytes.subrange(at, at + 4) == put32(n),
    ensures
        le32(bytes, at) == n,
{
    assert(bytes.subrange(at, at + 4)[0] == put32(n)[0]);
    assert(bytes.subrange(at, at + 4)[1] == put32(n)[1]);
    assert(bytes.subrange(at, at + 4)[2] == put32(n)[2]);
    assert(bytes.subrange(at, at + 4)[3] == put32(n)[3]);
    assert(n / 16777216 < 256);
    assert(n / 65536 == (n / 16777216) * 256 + n / 65536 % 256);
    assert(n / 256 == (n / 65536) * 256 + n / 256 % 256);
    assert(n == (n / 256) * 256 + n % 256);
}

/// A name is in a table of the pack exactly if an entry of that kind has it.
proof fn lemma_packed_has(
    list: Seq<(u8, Seq<char>, Seq<u8>)>,
    n: nat,
    kind: u8,
    name: Seq<char>,
)
    requires
        n <= list.len(),
        kind <= KIND_ADVISOR_FRAME,
        forall|i: int| 0 <= i < list.len() ==> writable(#[trigger] list[i]),
        has_file(files_of(packed(list, n), kind), name),
    ensures
        exists|i: int| 0 <= i < n && (#[trigger] list[i]).0 == kind && list[i].1 == name,
    decreases n,
{
    if n > 0 {
        let m = (n - 1) as nat;
        let before = files_of(packed(list, m), kind);
        let after = files_of(packed(list, n), kind);
        let k = choose|k: int| 0 <= k < after.len() && (#[trigger] after[k]).0 == name;
        assert(writable(list[m as int]));
        if list[m as int].0 == kind && k == before.len() {
            assert(list[m as int].1 == name);
        } else {
            assert(before[k] == after[k]);
            lemma_packed_has(list, m, kind, name);
        }
    }
}

/// Reading goes on from entry to entry as they were written.
proof fn lemma_read_written(list: Seq<(u8, Seq<char>, Seq<u8>)>, from: nat, bytes: Seq<u8>, at: int)
    requires
        all_writable(list),
        from <= list.len(),
        0 <= at <= bytes.len(),
        bytes.subrange(at, bytes.len() as int) == put_entries(list, from),
    ensures
        read_entries(bytes, at, (list.len() - from) as nat, packed(list, from)) == Ok::<
            Pack,
            Fault,
        >(packed(list, list.len())),
    decreases list.len() - from,
{
    let rest = bytes.subrange(at, bytes.len() as int);
    if from == list.len() {
        assert(rest.len() == 0);
    } else {
        let e = list[from as int];
        assert(writable(e));
        let key = encode_utf8(e.1);
        let head = put_entry(e);
        let tail = put_entries(list, from + 1);
        let key_at = at + 7;
        let data_at = key_at + key.len();
        let next = data_at + e.2.len();
        assert(rest == head + tail);
        assert(head.len() == 7 + key.len() + e.2.len());
        assert(bytes.len() - at == head.len() + tail.len());
        assert forall|i: int| 0 <= i < head.len() implies bytes[at + i] == #[trigger] head[i] by {
            assert(rest[i] == bytes[at + i]);
        }
        assert(bytes[at] == head[0]);
        assert(bytes.subrange(at + 1, at + 3) =~= put16(key.len() as int)) by {
            assert(bytes[at + 1] == head[1]);
            assert(bytes[at + 2] == head[2]);
        }
        lemma_put16(key.len() as int, bytes, at + 1);
        assert(bytes.subrange(at + 3, at + 7) =~= put32(e.2.len() as int)) by {
            assert(bytes[at + 3] == head[3]);
            assert(bytes[at + 4] == head[4]);
            assert(bytes[at + 5] == head[5]);
            assert(bytes[at + 6] == head[6]);
        }
        lemma_put32(e.2.len() as int, bytes, at + 3);
        assert(bytes.subrange(key_at, data_at) =~= key) by {
            assert forall|i: int| 0 <= i < key.len() implies bytes[key_at + i] == key[i] by {
                assert(bytes[at + (7 + i)] == head[7 + i]);
            }
        }
        assert(bytes.subrange(data_at, next) =~= e.2) by {
            assert forall|i: int| 0 <= i < e.2.len() implies bytes[data_at + i] == e.2[i] by {
                assert(bytes[at + (7 + key.len() + i)] == head[7 + key.len() + i]);
            }
        }
        vstd::utf8::encode_utf8_valid_utf8(e.1);
        vstd::utf8::encode_utf8_decode_utf8(e.1);
        if has_file(files_of(packed(list, from), e.0), e.1) {
            lemma_packed_has(list, from, e.0, e.1);
            let i = choose|i: int|
                0 <= i < from && (#[trigger] list[i]).0 == e.0 && list[i].1 == e.1;
            assert(list[i].0 == list[from as int].0);
            assert(false);
        }
        assert(bytes.subrange(next, bytes.len() as int) =~= tail) by {
            assert forall|i: int| 0 <= i < tail.len() implies bytes[next + i] == tail[i] by {
                assert(rest[head.len() + i] == tail[i]);
            }
        }
        lemma_read_written(list, from + 1, bytes, next);
        assert(read_entry(bytes, at, packed(list, from)) == Ok::<(Pack, int), Fault>(
            (packed(list, from + 1), next),
        ));
    }
}

/// A pack that was written is read back whole: every table holds exactly the
/// entries of its kind, in the order in which they were written.
pub proof fn law_written_pack_is_read_back(list: Seq<(u8, Seq<char>, Seq<u8>)>)
    requires
        all_writable(list),
    ensures
        read_pack(put_pack(list)) == Ok::<Pack, Fault>(packed(list, list.len())),
{
    let bytes = put_pack(list);
    let header = put_header(list.len());
    let body = put_entries(list, 0);
    assert(header.len() == 12);
    assert forall|i: int| 0 <= i < 12 implies bytes[i] == #[trigger] header[i] by {}
    assert(bytes.subrange(0, 4) =~= seq![0x4fu8, 0x52u8, 0x50u8, 0x4bu8]) by {
        assert(bytes[0] == header[0]);
        assert(bytes[1] == header[1]);
        assert(bytes[2] == header[2]);
        assert(bytes[3] == header[3]);
    }
    assert(bytes.subrange(4, 6) =~= put16(VERSION as int)) by {
        assert(bytes[4] == header[4]);
        assert(bytes[5] == header[5]);
    }
    lemma_put16(VERSION as int, bytes, 4);
    assert(bytes.subrange(6, 8) =~= put16(0)) by {
        assert(bytes[6] == header[6]);
        assert(bytes[7] == header[7]);
    }
    lemma_put16(0, bytes, 6);
    assert(bytes.subrange(8, 12) =~= put32(list.len() as int)) by {
        assert(bytes[8] == header[8]);
        assert(bytes[9] == header[9]);
        assert(bytes[10] == header[10]);
        assert(bytes[11] == header[11]);
    }
    lemma_put32(list.len() as int, bytes, 8);
    assert(bytes.subrange(12, bytes.len() as int) =~= body);
    lemma_read_written(list, 0, bytes, 12);
}

/// Within a parsed pack no table names a file twice.
pub proof fn law_names_differ(bytes: Seq<u8>, at: int, left: nat, pack: Pack)
    requires
        names_differ(pack.game_files),
        names_differ(pack.bitmaps),
        names_differ(pack.audio_files),
        names_differ(pack.advisor_frames),
        read_entries(bytes, at, left, pack) is Ok,
    ensures
        ({
            let parsed = read_entries(bytes, at, left, pack)->Ok_0;
            &&& names_differ(parsed.game_files)
            &&& names_differ(parsed.bitmaps)
            &&& names_differ(parsed.audio_files)
            &&& names_differ(parsed.advisor_frames)
        }),
    decreases left,
{
    if left > 0 {
        let (more, next) = read_entry(bytes, at, pack)->Ok_0;
        law_names_differ(bytes, next, (left - 1) as nat, more);
    }
}

} // verus!
