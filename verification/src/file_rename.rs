//! A directory listing of Baidu Netdisk and the renaming rules applied to
//! it: episode names built from a tagged example name, extension changes,
//! and the rename requests sent for them.

use vstd::prelude::*;
use vstd::string::StringSliceAdditionalSpecFns;
use vstd::utf8::*;

use crate::file_mgmt_operation::default_ondup;
use crate::text::{
    byte_range, first_byte_index, first_byte_index_of, holds_byte, holds_char,
    is_first_byte_index, is_last_byte_index, last_byte_index, last_byte_index_of,
    lemma_ascii_split, lemma_boundary_at_join, lemma_encode_ascii_char, lemma_encode_utf8_concat,
    lemma_first_byte_index_unique, lemma_last_byte_index_unique, lemma_no_ascii_byte, owned,
    split_around_ascii,
};

verus! {

broadcast use vstd::utf8::encode_utf8_valid_utf8, vstd::utf8::encode_utf8_decode_utf8;

/// The listing endpoint of the file API.
pub const FILE_INFO_URL: &'static str = "https://pan.baidu.com/rest/2.0/xpan/file?method=list";

/// The file management endpoint of the file API.
pub const FILE_MGMT_URL: &'static str = "https://pan.baidu.com/rest/2.0/xpan/file?method=filemanager";

/// The byte `$` that marks the episode in a tagged file name.
pub const TAG_BYTE: u8 = 36;

/// The byte `.` before a file extension.
pub const DOT_BYTE: u8 = 46;

/// One entry of a directory listing.
pub struct File {
    pub server_filename: String,
    pub path: String,
}

/// A directory listing as the file API returns it.
pub struct BaiduDirectory {
    pub errno: i32,
    pub list: Vec<File>,
}

/// The UTF-8 encoding of a file name.
pub open spec fn name_bytes(name: Seq<char>) -> Seq<u8> {
    encode_utf8(name)
}

/// A tagged name marks the episode with a `$` before and a `$` after it, so
/// it holds a `$` past its first byte.
pub open spec fn episode_tag_is_valid(tagged: Seq<u8>) -> bool {
    exists|k: int| 1 <= k < tagged.len() && tagged[k] == TAG_BYTE
}

/// The byte range of the episode in the untagged names: it starts where the
/// first `$` stands, and ends one byte before the last `$` (the first `$`
/// shifts what follows it by one byte).
pub open spec fn episode_bounds(tagged: Seq<u8>) -> (int, int) {
    (first_byte_index(tagged, TAG_BYTE), last_byte_index(tagged, TAG_BYTE) - 1)
}

/// A name has an extension when it holds a `.`.
pub open spec fn has_extension(name: Seq<char>) -> bool {
    holds_byte(name_bytes(name), DOT_BYTE)
}

/// The part of a name after its last `.`.
pub open spec fn extension_of(name: Seq<char>) -> Seq<char> {
    let b = name_bytes(name);
    decode_utf8(b.subrange(last_byte_index(b, DOT_BYTE) + 1, b.len() as int))
}

/// The part of a name before its last `.`.
pub open spec fn stem_of(name: Seq<char>) -> Seq<char> {
    let b = name_bytes(name);
    decode_utf8(b.subrange(0, last_byte_index(b, DOT_BYTE)))
}

/// Whether the byte range `begin..end` of a name can be taken as its
/// episode, and the name has an extension.
pub open spec fn episode_is_takeable(name: Seq<char>, begin: int, end: int) -> bool {
    let b = name_bytes(name);
    &&& has_extension(name)
    &&& 0 <= begin <= end <= b.len()
    &&& is_char_boundary(b, begin)
    &&& is_char_boundary(b, end)
}

/// The new name of a file: the season, `E`, the episode taken from the
/// bytes `begin..end` of the old name, `.`, and the old extension.
pub open spec fn episode_name(name: Seq<char>, season: Seq<char>, begin: int, end: int) -> Seq<
    char,
> {
    season + seq!['E'] + decode_utf8(name_bytes(name).subrange(begin, end)) + seq!['.']
        + extension_of(name)
}

/// The name with its extension replaced.
pub open spec fn extension_name(name: Seq<char>, extension: Seq<char>) -> Seq<char> {
    stem_of(name) + seq!['.'] + extension
}

/// One entry of the rename list of the file management API.
pub open spec fn rename_entry(path: Seq<char>, newname: Seq<char>) -> Seq<char> {
    "{\"path\":\""@ + path + "\",\"newname\":\""@ + newname + "\"}"@
}

/// Entries joined by commas.
pub open spec fn comma_joined(entries: Seq<Seq<char>>) -> Seq<char>
    decreases entries.len(),
{
    if entries.len() == 0 {
        Seq::empty()
    } else if entries.len() == 1 {
        entries[0]
    } else {
        comma_joined(entries.drop_last()) + seq![','] + entries.last()
    }
}

/// The rename list: the entries joined by commas, in brackets.
pub open spec fn file_list(entries: Seq<Seq<char>>) -> Seq<char> {
    seq!['['] + comma_joined(entries) + seq![']']
}

/// The URL of a rename call of the file management API.
pub open spec fn rename_url(access_token: Seq<char>) -> Seq<char> {
    FILE_MGMT_URL@ + "&access_token="@ + access_token + "&opera=rename"@
}

/// A rename call of the file management API, as the fields of its
/// multipart form.
pub struct RenameRequest {
    pub url: String,
    pub async_mode: String,
    pub filelist: String,
    pub ondup: String,
}

/// The request that renames the files of `names[i].0` to `names[i].1`.
pub open spec fn is_rename_request(
    r: RenameRequest,
    access_token: Seq<char>,
    entries: Seq<Seq<char>>,
) -> bool {
    &&& r.url@ == rename_url(access_token)
    &&& r.async_mode@ == "2"@
    &&& r.filelist@ == file_list(entries)
    &&& r.ondup@ == "fail"@
}

/// The request for the rename entries `entries`.
fn rename_request(access_token: &str, entries: &Vec<String>) -> (r: RenameRequest)
    ensures
        is_rename_request(r, access_token@, entries@.map_values(|e: String| e@)),
{
    let mut url = owned(FILE_MGMT_URL);
    url.append("&access_token=");
    url.append(access_token);
    url.append("&opera=rename");
    let mut joined = String::new();
    let ghost views = entries@.map_values(|e: String| e@);
    let mut i: usize = 0;
    while i < entries.len()
        invariant
            i <= entries@.len(),
            views == entries@.map_values(|e: String| e@),
            joined@ == comma_joined(views.take(i as int)),
        decreases entries@.len() - i,
    {
        assert(views.take(i + 1).drop_last() =~= views.take(i as int));
        if i > 0 {
            joined.append(",");
            proof {
                reveal_strlit(",");
            }
        }
        joined.append(entries[i].as_str());
        i = i + 1;
    }
    assert(views.take(entries@.len() as int) =~= views);
    let mut filelist = owned("[");
    filelist.append(joined.as_str());
    filelist.append("]");
    proof {
        reveal_strlit("[");
        reveal_strlit("]");
    }
    assert(url@ == rename_url(access_token@));
    assert(filelist@ == file_list(views));
    let async_mode = owned("2");
    let ondup = default_ondup();
    RenameRequest { url, async_mode, filelist, ondup }
}

/// The rename entry that gives the file at `path` the name `newname`.
fn entry_for(path: &str, newname: &str) -> (r: String)
    ensures
        r@ == rename_entry(path@, newname@),
{
    let mut r = owned("{\"path\":\"");
    r.append(path);
    r.append("\",\"newname\":\"");
    r.append(newname);
    r.append("\"}");
    r
}

impl BaiduDirectory {
    /// The byte offsets where the episode starts and ends in the names, read
    /// from a tagged example name such as `aabbccS01$01$.mp4`: the offset of
    /// the first `$`, and the offset of the last `$` less one.
    pub fn find_episodes(tagged_episode: &str) -> (r: (usize, usize))
        requires
            episode_tag_is_valid(tagged_episode.spec_bytes()),
        ensures
            r.0 == episode_bounds(tagged_episode.spec_bytes()).0,
            r.1 == episode_bounds(tagged_episode.spec_bytes()).1,
            is_first_byte_index(tagged_episode.spec_bytes(), TAG_BYTE, r.0 as int),
            is_last_byte_index(tagged_episode.spec_bytes(), TAG_BYTE, r.1 + 1),
    {
        let ghost t = tagged_episode.spec_bytes();
        let begin = first_byte_index_of(tagged_episode, TAG_BYTE);
        let last = last_byte_index_of(tagged_episode, TAG_BYTE);
        let begin = begin.unwrap();
        let last = last.unwrap();
        proof {
            let k = choose|k: int| 1 <= k < t.len() && t[k] == TAG_BYTE;
            assert(last >= k);
        }
        (begin, last - 1)
    }

    /// Whether `tagged_episode` marks an episode (see [`Self::find_episodes`]).
    pub fn episode_tag_is_valid(tagged_episode: &str) -> (b: bool)
        ensures
            b == episode_tag_is_valid(tagged_episode.spec_bytes()),
    {
        match last_byte_index_of(tagged_episode, TAG_BYTE) {
            Some(k) => k >= 1,
            None => false,
        }
    }

    /// The new name of `file`: `season`, `E`, the bytes `begin..end` of its
    /// name, `.`, and its extension.
    pub fn new_filename(file: &File, season: &str, begin: usize, end: usize) -> (r: String)
        requires
            episode_is_takeable(file.server_filename@, begin as int, end as int),
        ensures
            r@ == episode_name(file.server_filename@, season@, begin as int, end as int),
    {
        let name = file.server_filename.as_str();
        let dot = last_byte_index_of(name, DOT_BYTE).unwrap();
        let (_, extension) = split_around_ascii(name, dot);
        let episode = byte_range(name, begin, end);
        let mut r = owned(season);
        r.append("E");
        r.append(episode);
        r.append(".");
        r.append(extension);
        proof {
            reveal_strlit("E");
            reveal_strlit(".");
        }
        r
    }

    /// Whether the episode range `begin..end` can be taken from `file`.
    pub fn episode_is_takeable(file: &File, begin: usize, end: usize) -> (b: bool)
        ensures
            b == episode_is_takeable(file.server_filename@, begin as int, end as int),
    {
        let name = file.server_filename.as_str();
        match last_byte_index_of(name, DOT_BYTE) {
            None => false,
            Some(_) => begin <= end && end <= name.as_bytes().len() && name.is_char_boundary(begin)
                && name.is_char_boundary(end),
        }
    }

    /// The new names of all the files, in the order of the listing.
    pub fn get_all_new_files(&self, season: &str, tagged_episode: &str) -> (r: Vec<String>)
        requires
            episode_tag_is_valid(tagged_episode.spec_bytes()),
            forall|i: int|
                0 <= i < self.list@.len() ==> #[trigger] episode_is_takeable(
                    self.list@[i].server_filename@,
                    episode_bounds(tagged_episode.spec_bytes()).0,
                    episode_bounds(tagged_episode.spec_bytes()).1,
                ),
        ensures
            r@.len() == self.list@.len(),
            forall|i: int|
                0 <= i < r@.len() ==> #[trigger] r@[i]@ == episode_name(
                    self.list@[i].server_filename@,
                    season@,
                    episode_bounds(tagged_episode.spec_bytes()).0,
                    episode_bounds(tagged_episode.spec_bytes()).1,
                ),
    {
        let (begin, end) = BaiduDirectory::find_episodes(tagged_episode);
        let mut r: Vec<String> = Vec::new();
        let mut i: usize = 0;
        while i < self.list.len()
            invariant
                i <= self.list@.len(),
                r@.len() == i,
                begin == episode_bounds(tagged_episode.spec_bytes()).0,
                end == episode_bounds(tagged_episode.spec_bytes()).1,
                forall|j: int|
                    0 <= j < self.list@.len() ==> #[trigger] episode_is_takeable(
                        self.list@[j].server_filename@,
                        begin as int,
                        end as int,
                    ),
                forall|j: int|
                    0 <= j < i ==> #[trigger] r@[j]@ == episode_name(
                        self.list@[j].server_filename@,
                        season@,
                        begin as int,
                        end as int,
                    ),
            decreases self.list@.len() - i,
        {
            let name = BaiduDirectory::new_filename(&self.list[i], season, begin, end);
            r.push(name);
            i = i + 1;
        }
        r
    }

    /// Whether every file can be given an episode name after
    /// `tagged_episode`, which marks an episode.
    pub fn episode_names_are_buildable(&self, tagged_episode: &str) -> (b: bool)
        ensures
            b == (episode_tag_is_valid(tagged_episode.spec_bytes()) && forall|i: int|
                0 <= i < self.list@.len() ==> #[trigger] episode_is_takeable(
                    self.list@[i].server_filename@,
                    episode_bounds(tagged_episode.spec_bytes()).0,
                    episode_bounds(tagged_episode.spec_bytes()).1,
                )),
    {
        if !BaiduDirectory::episode_tag_is_valid(tagged_episode) {
            return false;
        }
        let (begin, end) = BaiduDirectory::find_episodes(tagged_episode);
        let mut i: usize = 0;
        while i < self.list.len()
            invariant
                i <= self.list@.len(),
                begin == episode_bounds(tagged_episode.spec_bytes()).0,
                end == episode_bounds(tagged_episode.spec_bytes()).1,
                forall|j: int|
                    0 <= j < i ==> #[trigger] episode_is_takeable(
                        self.list@[j].server_filename@,
                        begin as int,
                        end as int,
                    ),
            decreases self.list@.len() - i,
        {
            if !BaiduDirectory::episode_is_takeable(&self.list[i], begin, end) {
                return false;
            }
            i = i + 1;
        }
        true
    }

    /// The new name of `file` with its extension replaced by `extension`.
    pub fn new_extension(file: &File, extension: &str) -> (r: String)
        requires
            has_extension(file.server_filename@),
        ensures
            r@ == extension_name(file.server_filename@, extension@),
    {
        let name = file.server_filename.as_str();
        let dot = last_byte_index_of(name, DOT_BYTE).unwrap();
        let (stem, _) = split_around_ascii(name, dot);
        let mut r = owned(stem);
        r.append(".");
        r.append(extension);
        proof {
            reveal_strlit(".");
        }
        r
    }

    /// Whether `file` has an extension to replace.
    pub fn has_extension(file: &File) -> (b: bool)
        ensures
            b == has_extension(file.server_filename@),
    {
        last_byte_index_of(file.server_filename.as_str(), DOT_BYTE).is_some()
    }

    /// Whether every file has an extension to replace.
    pub fn extensions_are_replaceable(&self) -> (b: bool)
        ensures
            b == forall|i: int|
                0 <= i < self.list@.len() ==> #[trigger] has_extension(
                    self.list@[i].server_filename@,
                ),
    {
        let mut i: usize = 0;
        while i < self.list.len()
            invariant
                i <= self.list@.len(),
                forall|j: int|
                    0 <= j < i ==> #[trigger] has_extension(self.list@[j].server_filename@),
            decreases self.list@.len() - i,
        {
            if !BaiduDirectory::has_extension(&self.list[i]) {
                return false;
            }
            i = i + 1;
        }
        true
    }

    /// The line that shows the change of extension: the extension of the
    /// first file, ` -> `, and the new extension.
    pub fn compare_new_old_extension(&self, extension: &str) -> (r: String)
        requires
            self.list@.len() > 0,
            has_extension(self.list@[0].server_filename@),
        ensures
            r@ == extension_of(self.list@[0].server_filename@) + " -> "@ + extension@,
    {
        let name = self.list[0].server_filename.as_str();
        let dot = last_byte_index_of(name, DOT_BYTE).unwrap();
        let (_, old_extension) = split_around_ascii(name, dot);
        let mut r = owned(old_extension);
        r.append(" -> ");
        r.append(extension);
        r
    }

    /// The rename request that gives every file its episode name.
    pub fn rename_files_request(&self, season: &str, access_token: &str, tagged_episode: &str) -> (r:
        RenameRequest)
        requires
            episode_tag_is_valid(tagged_episode.spec_bytes()),
            forall|i: int|
                0 <= i < self.list@.len() ==> #[trigger] episode_is_takeable(
                    self.list@[i].server_filename@,
                    episode_bounds(tagged_episode.spec_bytes()).0,
                    episode_bounds(tagged_episode.spec_bytes()).1,
                ),
        ensures
            is_rename_request(
                r,
                access_token@,
                Seq::new(
                    self.list@.len(),
                    |i: int|
                        rename_entry(
                            self.list@[i].path@,
                            episode_name(
                                self.list@[i].server_filename@,
                                season@,
                                episode_bounds(tagged_episode.spec_bytes()).0,
                                episode_bounds(tagged_episode.spec_bytes()).1,
                            ),
                        ),
                ),
            ),
    {
        let names = self.get_all_new_files(season, tagged_episode);
        let ghost (begin, end) = episode_bounds(tagged_episode.spec_bytes());
        let ghost expected = Seq::new(
            self.list@.len(),
            |i: int|
                rename_entry(
                    self.list@[i].path@,
                    episode_name(self.list@[i].server_filename@, season@, begin, end),
                ),
        );
        let mut entries: Vec<String> = Vec::new();
        let mut i: usize = 0;
        while i < self.list.len()
            invariant
                i <= self.list@.len(),
                names@.len() == self.list@.len(),
                entries@.len() == i,
                forall|j: int|
                    0 <= j < names@.len() ==> #[trigger] names@[j]@ == episode_name(
                        self.list@[j].server_filename@,
                        season@,
                        begin,
                        end,
                    ),
                forall|j: int|
                    0 <= j < i ==> #[trigger] entries@[j]@ == rename_entry(
                        self.list@[j].path@,
                        episode_name(self.list@[j].server_filename@, season@, begin, end),
                    ),
            decreases self.list@.len() - i,
        {
            let entry = entry_for(self.list[i].path.as_str(), names[i].as_str());
            entries.push(entry);
            i = i + 1;
        }
        assert(entries@.map_values(|e: String| e@) =~= expected);
        rename_request(access_token, &entries)
    }

    /// The rename request that replaces the extension of every file.
    pub fn rename_extension_request(&self, access_token: &str, extension: &str) -> (r:
        RenameRequest)
        requires
            forall|i: int|
                0 <= i < self.list@.len() ==> #[trigger] has_extension(
                    self.list@[i].server_filename@,
                ),
        ensures
            is_rename_request(
                r,
                access_token@,
                Seq::new(
                    self.list@.len(),
                    |i: int|
                        rename_entry(
                            self.list@[i].path@,
                            extension_name(self.list@[i].server_filename@, extension@),
                        ),
                ),
            ),
    {
        let ghost expected = Seq::new(
            self.list@.len(),
            |i: int|
                rename_entry(
                    self.list@[i].path@,
                    extension_name(self.list@[i].server_filename@, extension@),
                ),
        );
        let mut entries: Vec<String> = Vec::new();
        let mut i: usize = 0;
        while i < self.list.len()
            invariant
                i <= self.list@.len(),
                entries@.len() == i,
                forall|j: int|
                    0 <= j < self.list@.len() ==> #[trigger] has_extension(
                        self.list@[j].server_filename@,
                    ),
                forall|j: int|
                    0 <= j < i ==> #[trigger] entries@[j]@ == rename_entry(
                        self.list@[j].path@,
                        extension_name(self.list@[j].server_filename@, extension@),
                    ),
            decreases self.list@.len() - i,
        {
            let newname = BaiduDirectory::new_extension(&self.list[i], extension);
            let entry = entry_for(self.list[i].path.as_str(), newname.as_str());
            entries.push(entry);
            i = i + 1;
        }
        assert(entries@.map_values(|e: String| e@) =~= expected);
        rename_request(access_token, &entries)
    }
}

/// The bytes that percent-encoding leaves as they are: ASCII letters and
/// digits, `-`, `.`, `_` and `~`.
pub open spec fn is_unreserved(b: u8) -> bool {
    ||| (48 <= b && b <= 57)
    ||| (65 <= b && b <= 90)
    ||| (97 <= b && b <= 122)
    ||| b == 45
    ||| b == 46
    ||| b == 95
    ||| b == 126
}

/// The upper-case hexadecimal digit of a value below sixteen.
pub open spec fn hex_digit(d: u8) -> char {
    if d < 10 {
        (48 + d) as char
    } else {
        (55 + d) as char
    }
}

/// One byte, percent-encoded.
pub open spec fn percent_encoded_byte(b: u8) -> Seq<char> {
    if is_unreserved(b) {
        seq![b as char]
    } else {
        seq!['%', hex_digit(b / 16), hex_digit(b % 16)]
    }
}

/// The percent-encoding of a byte sequence, byte by byte.
pub open spec fn url_encoded(b: Seq<u8>) -> Seq<char>
    decreases b.len(),
{
    if b.len() == 0 {
        Seq::empty()
    } else {
        percent_encoded_byte(b[0]) + url_encoded(b.drop_first())
    }
}

/// `urlencoding::encode`: percent-encodes every byte of the UTF-8 encoding of
/// `data` except ASCII letters, digits, `-`, `.`, `_` and `~`, with
/// upper-case hexadecimal digits. The contract claims exactly that result.
#[verifier::external_body]
fn url_encode(data: &str) -> (r: String)
    ensures
        r@ == url_encoded(data.spec_bytes()),
{
    urlencoding::encode(data).into_owned()
}

/// The URL that lists the directory `dir`.
pub open spec fn files_url(dir: &str, access_token: Seq<char>) -> Seq<char> {
    FILE_INFO_URL@ + "&dir="@ + url_encoded(dir.spec_bytes()) + "&web=0&access_token="@
        + access_token
}

/// Why a directory listing was refused.
#[derive(Debug, PartialEq, Eq, Structural, Clone, Copy)]
pub enum ListingError {
    NoAccess,
    NotFound,
    Unknown,
}

/// The status of a listing answer with the error number `errno`.
pub open spec fn listing_status_of(errno: i32) -> Result<(), ListingError> {
    if errno == 0 {
        Ok(())
    } else if errno == -7 {
        Err(ListingError::NoAccess)
    } else if errno == -9 {
        Err(ListingError::NotFound)
    } else {
        Err(ListingError::Unknown)
    }
}

impl ListingError {
    /// The message shown for the error.
    pub fn message(&self) -> (r: String)
        ensures
            r@ == match self {
                ListingError::NoAccess => "文件或目录无权访问"@,
                ListingError::NotFound => "文件或目录不存在"@,
                ListingError::Unknown => "Unknown Error Occurs."@,
            },
    {
        match self {
            ListingError::NoAccess => owned("文件或目录无权访问"),
            ListingError::NotFound => owned("文件或目录不存在"),
            ListingError::Unknown => owned("Unknown Error Occurs."),
        }
    }
}

impl BaiduDirectory {
    /// The URL that lists the files of the directory `dir`, with `dir`
    /// percent-encoded.
    pub fn files_url(dir: &str, access_token: &str) -> (r: String)
        ensures
            r@ == files_url(dir, access_token@),
    {
        let encoded = url_encode(dir);
        let mut r = owned(FILE_INFO_URL);
        r.append("&dir=");
        r.append(encoded.as_str());
        r.append("&web=0&access_token=");
        r.append(access_token);
        r
    }

    /// Whether a listing answer with the error number `errno` holds the
    /// files, or why not.
    pub fn listing_status(errno: i32) -> (r: Result<(), ListingError>)
        ensures
            r == listing_status_of(errno),
    {
        match errno {
            0 => Ok(()),
            -7 => Err(ListingError::NoAccess),
            -9 => Err(ListingError::NotFound),
            _ => Err(ListingError::Unknown),
        }
    }
}

/// A byte sequence that holds a byte has a last position of it.
pub proof fn lemma_last_byte_index_exists(b: Seq<u8>, x: u8)
    requires
        holds_byte(b, x),
    ensures
        is_last_byte_index(b, x, last_byte_index(b, x)),
    decreases b.len(),
{
    if b.last() == x {
        assert(is_last_byte_index(b, x, b.len() - 1));
    } else {
        let j = choose|j: int| 0 <= j < b.len() && b[j] == x;
        assert(b.drop_last()[j] == x);
        lemma_last_byte_index_exists(b.drop_last(), x);
        let k = last_byte_index(b.drop_last(), x);
        assert forall|i: int| k < i < b.len() implies b[i] != x by {
            if i < b.len() - 1 {
                assert(b[i] == b.drop_last()[i]);
            }
        }
        assert(b[k] == b.drop_last()[k]);
        assert(is_last_byte_index(b, x, k));
    }
}

/// A name joined from `x`, `.` and `y`, where the encoding of `y` holds no
/// `.`, has the stem `x` and the extension `y`.
proof fn lemma_dot_join(x: Seq<char>, y: Seq<char>)
    requires
        !holds_byte(name_bytes(y), DOT_BYTE),
    ensures
        has_extension(x + seq!['.'] + y),
        extension_of(x + seq!['.'] + y) == y,
        stem_of(x + seq!['.'] + y) == x,
{
    let w = x + seq!['.'] + y;
    lemma_encode_utf8_concat(x + seq!['.'], y);
    lemma_encode_utf8_concat(x, seq!['.']);
    lemma_encode_ascii_char('.');
    let bx = name_bytes(x);
    let by = name_bytes(y);
    let b = name_bytes(w);
    assert(b =~= bx + seq![DOT_BYTE] + by);
    let k = bx.len() as int;
    assert forall|j: int| k < j < b.len() implies b[j] != DOT_BYTE by {
        assert(b[j] == by[j - k - 1]);
    }
    assert(is_last_byte_index(b, DOT_BYTE, k));
    lemma_last_byte_index_unique(b, DOT_BYTE, k);
    assert(b.subrange(k + 1, b.len() as int) =~= by);
    assert(b.subrange(0, k) =~= bx);
}

/// The part after the last `.` of a name holds no `.`, and its encoding is
/// the tail of the name's encoding.
proof fn lemma_extension_bytes(name: Seq<char>)
    requires
        has_extension(name),
    ensures
        !holds_byte(name_bytes(extension_of(name)), DOT_BYTE),
        name_bytes(extension_of(name)) == name_bytes(name).subrange(
            last_byte_index(name_bytes(name), DOT_BYTE) + 1,
            name_bytes(name).len() as int,
        ),
{
    let b = name_bytes(name);
    lemma_last_byte_index_exists(b, DOT_BYTE);
    let d = last_byte_index(b, DOT_BYTE);
    lemma_ascii_split(b, d);
    let tail = b.subrange(d + 1, b.len() as int);
    decode_utf8_encode_utf8(tail);
    if holds_byte(tail, DOT_BYTE) {
        let j = choose|j: int| 0 <= j < tail.len() && tail[j] == DOT_BYTE;
        assert(b[d + 1 + j] == DOT_BYTE);
    }
}

/// An episode name keeps the extension of the old name.
pub proof fn lemma_episode_name_keeps_extension(
    name: Seq<char>,
    season: Seq<char>,
    begin: int,
    end: int,
)
    requires
        episode_is_takeable(name, begin, end),
    ensures
        has_extension(episode_name(name, season, begin, end)),
        extension_of(episode_name(name, season, begin, end)) == extension_of(name),
{
    lemma_extension_bytes(name);
    let head = season + seq!['E'] + decode_utf8(name_bytes(name).subrange(begin, end));
    lemma_dot_join(head, extension_of(name));
}

/// Replacing the extension by one that holds no `.` gives a name with that
/// extension and the old stem.
pub proof fn lemma_extension_change(name: Seq<char>, extension: Seq<char>)
    requires
        has_extension(name),
        !holds_char(extension, '.'),
    ensures
        has_extension(extension_name(name, extension)),
        extension_of(extension_name(name, extension)) == extension,
        stem_of(extension_name(name, extension)) == stem_of(name),
{
    lemma_no_ascii_byte(extension, '.');
    lemma_dot_join(stem_of(name), extension);
}

/// The example name `prefix $ episode $ suffix` tagged by the user.
pub open spec fn tagged_name(prefix: Seq<char>, episode: Seq<char>, suffix: Seq<char>) -> Seq<char> {
    prefix + seq!['$'] + episode + seq!['$'] + suffix
}

/// Tagging a name with `$` before and after its episode marks exactly that
/// episode: the bounds read from the tagged name take the episode out of the
/// untagged name, and its new name is the season, `E`, the episode, `.` and
/// its extension.
pub proof fn lemma_tag_selects_episode(
    prefix: Seq<char>,
    episode: Seq<char>,
    suffix: Seq<char>,
    season: Seq<char>,
)
    requires
        !holds_char(prefix, '$'),
        !holds_char(episode, '$'),
        !holds_char(suffix, '$'),
        has_extension(prefix + episode + suffix),
    ensures
        episode_tag_is_valid(name_bytes(tagged_name(prefix, episode, suffix))),
        episode_is_takeable(
            prefix + episode + suffix,
            episode_bounds(name_bytes(tagged_name(prefix, episode, suffix))).0,
            episode_bounds(name_bytes(tagged_name(prefix, episode, suffix))).1,
        ),
        episode_name(
            prefix + episode + suffix,
            season,
            episode_bounds(name_bytes(tagged_name(prefix, episode, suffix))).0,
            episode_bounds(name_bytes(tagged_name(prefix, episode, suffix))).1,
        ) == season + seq!['E'] + episode + seq!['.'] + extension_of(prefix + episode + suffix),
{
    let bp = name_bytes(prefix);
    let be = name_bytes(episode);
    let bs = name_bytes(suffix);
    lemma_no_ascii_byte(prefix, '$');
    lemma_no_ascii_byte(episode, '$');
    lemma_no_ascii_byte(suffix, '$');
    lemma_encode_ascii_char('$');
    lemma_encode_utf8_concat(prefix, seq!['$']);
    lemma_encode_utf8_concat(prefix + seq!['$'], episode);
    lemma_encode_utf8_concat(prefix + seq!['$'] + episode, seq!['$']);
    lemma_encode_utf8_concat(prefix + seq!['$'] + episode + seq!['$'], suffix);
    let t = name_bytes(tagged_name(prefix, episode, suffix));
    assert(t =~= bp + seq![TAG_BYTE] + be + seq![TAG_BYTE] + bs);
    let first = bp.len() as int;
    let last = (bp.len() + 1 + be.len()) as int;
    assert forall|j: int| 0 <= j < first implies t[j] != TAG_BYTE by {
        assert(t[j] == bp[j]);
    }
    assert(is_first_byte_index(t, TAG_BYTE, first));
    lemma_first_byte_index_unique(t, TAG_BYTE, first);
    assert forall|j: int| last < j < t.len() implies t[j] != TAG_BYTE by {
        assert(t[j] == bs[j - last - 1]);
    }
    assert(is_last_byte_index(t, TAG_BYTE, last));
    lemma_last_byte_index_unique(t, TAG_BYTE, last);
    assert(episode_tag_is_valid(t)) by {
        assert(t[last] == TAG_BYTE);
    }
    let name = prefix + episode + suffix;
    lemma_encode_utf8_concat(prefix, episode);
    lemma_encode_utf8_concat(prefix + episode, suffix);
    let b = name_bytes(name);
    assert(b =~= bp + be + bs);
    assert(b.subrange(first, first + be.len()) =~= be);
    valid_utf8_concat(be, bs);
    lemma_boundary_at_join(bp, be + bs);
    assert(bp + (be + bs) =~= b);
    valid_utf8_concat(bp, be);
    lemma_boundary_at_join(bp + be, bs);
}

/// The rename list of no entries is `[]`, that of one entry is the entry in
/// brackets, and each further entry is added after a comma: the list is
/// `[e0,e1,...,en]`, a JSON array of the entries in their order.
pub proof fn lemma_file_list_shape(entries: Seq<Seq<char>>, x: Seq<char>)
    ensures
        file_list(Seq::empty()) == seq!['[', ']'],
        file_list(seq![x]) == seq!['['] + x + seq![']'],
        entries.len() > 0 ==> comma_joined(entries.push(x)) == comma_joined(entries) + seq![',']
            + x,
        entries.len() > 0 ==> file_list(entries.push(x)) == seq!['['] + comma_joined(entries)
            + seq![','] + x + seq![']'],
{
    assert(file_list(Seq::empty()) =~= seq!['[', ']']);
    assert(entries.push(x).drop_last() =~= entries);
}

/// The value of a hexadecimal digit (`0`-`9`, `A`-`F`).
pub open spec fn hex_value(c: char) -> int {
    let v = c as int;
    if 48 <= v <= 57 {
        v - 48
    } else if 65 <= v <= 70 {
        v - 55
    } else {
        0
    }
}

/// The bytes that a percent-encoded text stands for: `%` and two hexadecimal
/// digits stand for one byte, any other character for its own code.
pub open spec fn url_decoded(s: Seq<char>) -> Seq<u8>
    decreases s.len(),
{
    if s.len() == 0 {
        Seq::empty()
    } else if s[0] == '%' && s.len() >= 3 {
        seq![(hex_value(s[1]) * 16 + hex_value(s[2])) as u8] + url_decoded(s.skip(3))
    } else {
        seq![s[0] as u8] + url_decoded(s.drop_first())
    }
}

/// Percent-decoding gives back the bytes that were percent-encoded.
pub proof fn lemma_url_decoded_encoded(b: Seq<u8>)
    ensures
        url_decoded(url_encoded(b)) == b,
    decreases b.len(),
{
    if b.len() > 0 {
        let rest = b.drop_first();
        lemma_url_decoded_encoded(rest);
        let head = percent_encoded_byte(b[0]);
        let e = url_encoded(b);
        assert(e == head + url_encoded(rest));
        if is_unreserved(b[0]) {
            assert(e[0] == b[0] as char);
            assert((b[0] as char) as u8 == b[0]);
            assert(e.drop_first() =~= url_encoded(rest));
        } else {
            let hi = b[0] / 16;
            let lo = b[0] % 16;
            assert(hex_value(hex_digit(hi)) == hi as int);
            assert(hex_value(hex_digit(lo)) == lo as int);
            assert(e[0] == '%');
            assert(e.skip(3) =~= url_encoded(rest));
        }
        assert(url_decoded(e) =~= b);
    }
}

/// The listing URL asks for the directory `dir` itself: between `&dir=` and
/// `&web=0&access_token=` it holds a text whose percent-decoding is every
/// byte of `dir`, and the token comes last.
pub proof fn lemma_files_url_names_dir(dir: &str, access_token: Seq<char>)
    ensures
        ({
            let u = files_url(dir, access_token);
            let head = FILE_INFO_URL@ + "&dir="@;
            let tail = "&web=0&access_token="@ + access_token;
            let d = u.subrange(head.len() as int, u.len() - tail.len());
            &&& u == head + d + tail
            &&& url_decoded(d) == dir.spec_bytes()
        }),
{
    let u = files_url(dir, access_token);
    let head = FILE_INFO_URL@ + "&dir="@;
    let tail = "&web=0&access_token="@ + access_token;
    let enc = url_encoded(dir.spec_bytes());
    assert(u =~= head + enc + tail);
    assert(u.subrange(head.len() as int, u.len() - tail.len()) =~= enc);
    lemma_url_decoded_encoded(dir.spec_bytes());
}

} // verus!
