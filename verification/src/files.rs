//! The Files browser: listings, downloads, archives and uploads of a
//! workspace's files.

use vstd::prelude::*;
use vstd::string::*;
use vstd::utf8::*;

use crate::error::{ApiError, bad_request, conflict, forbidden};
use crate::file_policy::{
    MAX_LIST_ENTRIES, MAX_UPLOAD_FILES, MAX_UPLOAD_FILE_BYTES, MAX_ZIP_ENTRIES,
    MAX_ZIP_UNCOMPRESSED_BYTES, acceptable, denied, hidden, is_denied_component, is_hidden,
    safe_basename,
};
use crate::foreign::{lowercase_text, to_lowercase};
use crate::path_text::{
    component_texts, components, file_name, final_name, is_name, is_name_component, strip_prefix,
    stripped,
};
use crate::text::{
    ascii_alphanumeric, chars_of, concat3, contains_char, is_blank, join_texts, joined, same_text,
    texts, trim, trimmed,
};

verus! {

/// How long an archive may take.
pub const ZIP_WALL_TIME_MS: u64 = 120000;

/// A file or directory of a workspace.
#[derive(Debug)]
pub struct WorkspaceFileEntry {
    pub name: String,
    /// Relative to the workspace, with forward slashes.
    pub path: String,
    pub is_dir: bool,
    pub is_symlink: bool,
    pub size_bytes: i64,
    /// Nanoseconds since the epoch.
    pub modified: Option<i128>,
}

/// A directory of a workspace.
#[derive(Debug)]
pub struct WorkspaceDirListing {
    pub path: String,
    pub entries: Vec<WorkspaceFileEntry>,
    /// Whether there is more than is shown.
    pub truncated: bool,
}

/// What a listing asks for.
#[derive(Debug)]
pub struct PathQuery {
    pub path: String,
}

/// What an upload asks for.
#[derive(Debug)]
pub struct UploadQuery {
    /// The directory that the files go to; absent or blank for the default one.
    pub path: Option<String>,
    /// Whether files may be replaced.
    pub overwrite: bool,
}

/// `s` with forward slashes in place of backslashes.
pub open spec fn forward_slashes(s: Seq<char>) -> Seq<char> {
    s.map_values(
        |c: char|
            if c == '\\' {
                '/'
            } else {
                c
            },
    )
}

fn to_forward_slashes(s: &str) -> (out: String)
    ensures
        out@ == forward_slashes(s@),
{
    let chars = chars_of(s);
    let mut out = String::new();
    for i in 0..chars.len()
        invariant
            chars@ == s@,
            out@ == forward_slashes(s@.take(i as int)),
    {
        let c = if chars[i] == '\\' {
            '/'
        } else {
            chars[i]
        };
        out.push(c);
        proof {
            assert(forward_slashes(s@.take(i + 1)) =~= forward_slashes(s@.take(i as int)).push(c));
        }
    }
    proof {
        assert(s@.take(s@.len() as int) =~= s@);
    }
    out
}

/// `full` relative to `base`, with forward slashes. A path outside `base` is
/// reported as missing, so that no path of the server's is shown.
pub fn relative_to(base: &str, full: &str) -> (r: Result<String, ApiError>)
    ensures
        match stripped(full@, base@) {
            Some(rel) => r is Ok && r->Ok_0@ == forward_slashes(rel),
            None => r == Err::<String, _>(ApiError::NotFound),
        },
{
    match strip_prefix(full, base) {
        Some(rel) => Ok(to_forward_slashes(rel.as_str())),
        None => Err(ApiError::NotFound),
    }
}

/// The bytes that stand for themselves in a header's extended value.
pub open spec fn unreserved(b: u8) -> bool {
    ||| 48 <= b <= 57
    ||| 65 <= b <= 90
    ||| 97 <= b <= 122
    ||| b == 45
    ||| b == 46
    ||| b == 95
    ||| b == 126
}

/// The upper-case hexadecimal digit of `n`.
pub open spec fn upper_hex_digit(n: int) -> char {
    if n < 10 {
        (48 + n) as char
    } else {
        (55 + n) as char
    }
}

/// How a byte is written in a header's extended value.
pub open spec fn encoded_byte(b: u8) -> Seq<char> {
    if unreserved(b) {
        seq![b as char]
    } else {
        seq!['%', upper_hex_digit(b as int / 16), upper_hex_digit(b as int % 16)]
    }
}

/// How bytes are written in a header's extended value.
pub open spec fn percent_encoded(bytes: Seq<u8>) -> Seq<char>
    decreases bytes.len(),
{
    if bytes.len() == 0 {
        Seq::empty()
    } else {
        percent_encoded(bytes.drop_last()) + encoded_byte(bytes.last())
    }
}

fn upper_hex_char(n: u8) -> (c: char)
    requires
        n < 16,
    ensures
        c == upper_hex_digit(n as int),
{
    if n < 10 {
        (48 + n) as char
    } else {
        (55 + n) as char
    }
}

/// The header that makes a browser store what it is sent under `name`.
pub open spec fn disposition(name: Seq<char>) -> Seq<char> {
    "attachment; filename*=UTF-8''"@ + percent_encoded(encode_utf8(name))
}

/// The header that makes a browser store what it is sent under `name`.
pub fn attachment_disposition(name: &str) -> (out: String)
    ensures
        out@ == disposition(name@),
{
    let mut out = "attachment; filename*=UTF-8''".to_owned();
    let ghost head = out@;
    let bytes = name.as_bytes();
    proof {
        assert(head + percent_encoded(bytes@.take(0)) =~= head);
    }
    for i in 0..bytes.len()
        invariant
            bytes@ == encode_utf8(name@),
            out@ == head + percent_encoded(bytes@.take(i as int)),
    {
        let b: u8 = bytes[i];
        let ghost before = out@;
        if (48 <= b && b <= 57) || (65 <= b && b <= 90) || (97 <= b && b <= 122) || b == 45 || b
            == 46 || b == 95 || b == 126 {
            out.push(b as char);
        } else {
            out.push('%');
            out.push(upper_hex_char(b / 16));
            out.push(upper_hex_char(b % 16));
        }
        proof {
            assert(out@ =~= before + encoded_byte(b));
            assert(bytes@.take(i + 1).drop_last() =~= bytes@.take(i as int));
            assert(bytes@.take(i + 1).last() == b);
            assert(out@ =~= head + percent_encoded(bytes@.take(i + 1)));
        }
    }
    proof {
        assert(bytes@.take(bytes@.len() as int) =~= bytes@);
    }
    out
}

/// The characters that a header's extended value is made of.
pub open spec fn header_safe(c: char) -> bool {
    ascii_alphanumeric(c) || c == '-' || c == '.' || c == '_' || c == '~' || c == '%'
}

/// No file name can break out of the header: what stands for it holds neither
/// line breaks nor quotes, nor anything else but letters, digits and a few
/// marks.
pub proof fn law_disposition_is_inert(bytes: Seq<u8>)
    ensures
        forall|i: int|
            0 <= i < percent_encoded(bytes).len() ==> header_safe(
                #[trigger] percent_encoded(bytes)[i],
            ),
    decreases bytes.len(),
{
    if bytes.len() > 0 {
        law_disposition_is_inert(bytes.drop_last());
        let head = percent_encoded(bytes.drop_last());
        let all = percent_encoded(bytes);
        assert forall|i: int| 0 <= i < all.len() implies header_safe(#[trigger] all[i]) by {
            if i < head.len() {
                assert(all[i] == head[i]);
            } else {
                assert(all[i] == encoded_byte(bytes.last())[i - head.len()]);
            }
        }
    }
}

/// The name that a download is stored under.
pub open spec fn download_label(path: Seq<char>) -> Seq<char> {
    match final_name(path) {
        Some(n) => n,
        None => "download"@,
    }
}

/// The name that an archive is stored under.
pub open spec fn archive_label(root: Seq<char>) -> Seq<char> {
    (match final_name(root) {
        Some(n) => n,
        None => "workspace"@,
    }) + ".zip"@
}

/// The name that a download is stored under.
pub fn download_name(path: &str) -> (name: String)
    ensures
        name@ == download_label(path@),
{
    match file_name(path) {
        Some(n) => n,
        None => "download".to_owned(),
    }
}

/// The name that an archive is stored under.
pub fn archive_name(root: &str) -> (name: String)
    ensures
        name@ == archive_label(root@),
{
    let mut name = match file_name(root) {
        Some(n) => n,
        None => "workspace".to_owned(),
    };
    name.append(".zip");
    name
}

/// Whether an archive's entry may be made of these components: names alone,
/// without a backslash.
pub open spec fn archivable(parts: Seq<Seq<char>>) -> bool {
    forall|i: int|
        0 <= i < parts.len() ==> is_name(#[trigger] parts[i]) && !parts[i].contains('\\')
            && !parts[i].contains('/')
}

/// The name of an archive's entry for `path`, relative to `root`. A name that
/// could be taken for a path when the archive is unpacked is refused.
pub fn zip_entry_name(root: &str, path: &str) -> (r: Result<String, ApiError>)
    ensures
        match stripped(path@, root@) {
            None => r is Err && (r->Err_0 matches ApiError::Io(m) && m@ == "prefix not found"@),
            Some(rel) => if archivable(components(rel)) {
                r is Ok && r->Ok_0@ == joined(components(rel), "/"@)
            } else {
                r is Err && bad_request(r->Err_0, "Unsafe archive path"@)
            },
        },
{
    let rel = match strip_prefix(path, root) {
        Some(rel) => rel,
        None => return Err(ApiError::Io("prefix not found".to_owned())),
    };
    let parts = component_texts(rel.as_str());
    let ghost all = components(rel@);
    proof {
        assert(texts(parts@).len() == parts@.len());
    }
    for i in 0..parts.len()
        invariant
            stripped(path@, root@) == Some(rel@),
            texts(parts@) == all,
            all == components(rel@),
            parts@.len() == all.len(),
            forall|j: int|
                0 <= j < i ==> is_name(#[trigger] all[j]) && !all[j].contains('\\')
                    && !all[j].contains('/'),
    {
        proof {
            assert(all[i as int] == parts@[i as int]@);
        }
        let part = parts[i].as_str();
        if !is_name_component(part) || contains_char(part, '/') || contains_char(part, '\\') {
            return Err(ApiError::BadRequest("Unsafe archive path".to_owned()));
        }
    }
    Ok(join_texts(&parts, "/"))
}

/// Whether an archive goes into, or takes, what it meets: everything at its
/// root, and below it whatever is neither hidden nor off limits.
pub fn archive_visits(depth: usize, name: &str) -> (r: bool)
    ensures
        r == (depth == 0 || !(denied(name@) || hidden(name@))),
{
    depth == 0 || !(is_denied_component(name) || is_hidden(name))
}

/// What is done with a file that an archive meets.
#[derive(Debug)]
pub enum ZipStep {
    /// Nothing.
    Skip,
    /// Copy it to the entry `name`, at most one byte more than `remaining`.
    Copy { name: String, remaining: u64 },
    /// The archive is given up.
    Refuse(ApiError),
}

/// How much an archive holds so far.
#[derive(Debug, Clone, Copy, PartialEq, Eq, Structural)]
pub struct ZipBudget {
    pub entries: usize,
    pub total_bytes: u64,
}

impl ZipBudget {
    /// Whether the limits are kept.
    pub open spec fn valid(self) -> bool {
        self.entries <= MAX_ZIP_ENTRIES && self.total_bytes <= MAX_ZIP_UNCOMPRESSED_BYTES
    }

    pub fn new() -> (b: ZipBudget)
        ensures
            b == (ZipBudget { entries: 0, total_bytes: 0 }),
            b.valid(),
    {
        ZipBudget { entries: 0, total_bytes: 0 }
    }

    /// Whether `step` is what is done with a regular file whose entry is called
    /// `name`.
    pub open spec fn decides(self, name: Seq<char>, step: ZipStep) -> bool {
        if name.len() == 0 {
            step is Skip
        } else if self.entries >= MAX_ZIP_ENTRIES {
            step matches ZipStep::Refuse(e) && bad_request(
                e,
                "Folder has too many files to archive; select a smaller folder"@,
            )
        } else if self.total_bytes >= MAX_ZIP_UNCOMPRESSED_BYTES {
            step == ZipStep::Refuse(ApiError::PayloadTooLarge)
        } else {
            step matches ZipStep::Copy { name: n, remaining } && n@ == name && remaining
                == MAX_ZIP_UNCOMPRESSED_BYTES - self.total_bytes
        }
    }

    /// Decides what is done with what the archive meets at `path`, `elapsed_ms`
    /// after it was started. Only regular files are taken, and links never.
    pub fn meet(
        &mut self,
        elapsed_ms: u64,
        is_symlink: bool,
        is_file: bool,
        root: &str,
        path: &str,
    ) -> (step: ZipStep)
        requires
            old(self).valid(),
        ensures
            if elapsed_ms > ZIP_WALL_TIME_MS {
                step matches ZipStep::Refuse(e) && bad_request(
                    e,
                    "Archive generation timed out; select a smaller folder"@,
                )
            } else if is_symlink || !is_file {
                step is Skip
            } else {
                match stripped(path@, root@) {
                    None => step matches ZipStep::Refuse(ApiError::Io(m)) && m@
                        == "prefix not found"@,
                    Some(rel) => if archivable(components(rel)) {
                        old(self).decides(joined(components(rel), "/"@), step)
                    } else {
                        step matches ZipStep::Refuse(e) && bad_request(e, "Unsafe archive path"@)
                    },
                }
            },
            final(self).total_bytes == old(self).total_bytes,
            final(self).entries == if step is Copy {
                old(self).entries + 1
            } else {
                old(self).entries as int
            },
            final(self).valid(),
    {
        if elapsed_ms > ZIP_WALL_TIME_MS {
            return ZipStep::Refuse(
                ApiError::BadRequest(
                    "Archive generation timed out; select a smaller folder".to_owned(),
                ),
            );
        }
        if is_symlink || !is_file {
            return ZipStep::Skip;
        }
        let name = match zip_entry_name(root, path) {
            Ok(name) => name,
            Err(e) => return ZipStep::Refuse(e),
        };
        if name.as_str().is_empty() {
            return ZipStep::Skip;
        }
        if self.entries >= MAX_ZIP_ENTRIES {
            return ZipStep::Refuse(
                ApiError::BadRequest(
                    "Folder has too many files to archive; select a smaller folder".to_owned(),
                ),
            );
        }
        if self.total_bytes >= MAX_ZIP_UNCOMPRESSED_BYTES {
            return ZipStep::Refuse(ApiError::PayloadTooLarge);
        }
        self.entries = self.entries + 1;
        ZipStep::Copy { name, remaining: MAX_ZIP_UNCOMPRESSED_BYTES - self.total_bytes }
    }

    /// Counts what was copied; `false` where it was more than the limit allows.
    pub fn copied(&mut self, written: u64) -> (within: bool)
        requires
            old(self).valid(),
        ensures
            within == (old(self).total_bytes + written <= MAX_ZIP_UNCOMPRESSED_BYTES),
            final(self).entries == old(self).entries,
            final(self).total_bytes == if within {
                old(self).total_bytes + written
            } else {
                old(self).total_bytes as int
            },
            final(self).valid(),
    {
        if written > MAX_ZIP_UNCOMPRESSED_BYTES - self.total_bytes {
            return false;
        }
        self.total_bytes = self.total_bytes + written;
        true
    }
}

/// What a directory is asked for.
#[derive(Debug, Clone, Copy, PartialEq, Eq, Structural)]
pub enum DirectoryUse {
    Listing,
    Archive,
}

/// Refuses what is no directory where one is asked for.
pub fn require_directory(path: String, is_dir: bool, purpose: DirectoryUse) -> (r: Result<
    String,
    ApiError,
>)
    ensures
        if is_dir {
            r == Ok::<String, ApiError>(path)
        } else {
            r is Err && bad_request(
                r->Err_0,
                match purpose {
                    DirectoryUse::Listing => "Path is not a directory"@,
                    DirectoryUse::Archive => "Zip target is not a directory"@,
                },
            )
        },
{
    if is_dir {
        return Ok(path);
    }
    match purpose {
        DirectoryUse::Listing => Err(ApiError::BadRequest("Path is not a directory".to_owned())),
        DirectoryUse::Archive => Err(
            ApiError::BadRequest("Zip target is not a directory".to_owned()),
        ),
    }
}

/// The headers of a response that a browser has to store, and never shows.
#[derive(Debug)]
pub struct DownloadHead {
    pub content_type: String,
    pub content_length: u64,
    pub content_type_options: String,
    pub content_disposition: String,
}

/// The headers for the file at `path`, which is `len` bytes long. Only a regular
/// file is sent.
pub fn download_head(path: &str, is_file: bool, len: u64) -> (r: Result<DownloadHead, ApiError>)
    ensures
        if is_file {
            &&& r is Ok
            &&& r->Ok_0.content_type@ == "application/octet-stream"@
            &&& r->Ok_0.content_length == len
            &&& r->Ok_0.content_type_options@ == "nosniff"@
            &&& r->Ok_0.content_disposition@ == disposition(download_label(path@))
        } else {
            r == Err::<DownloadHead, ApiError>(ApiError::NotFound)
        },
{
    if !is_file {
        return Err(ApiError::NotFound);
    }
    let name = download_name(path);
    Ok(
        DownloadHead {
            content_type: "application/octet-stream".to_owned(),
            content_length: len,
            content_type_options: "nosniff".to_owned(),
            content_disposition: attachment_disposition(name.as_str()),
        },
    )
}

/// The headers for the archive of the directory at `root`, which is `len` bytes
/// long.
pub fn archive_head(root: &str, len: u64) -> (h: DownloadHead)
    ensures
        h.content_type@ == "application/zip"@,
        h.content_length == len,
        h.content_type_options@ == "nosniff"@,
        h.content_disposition@ == disposition(archive_label(root@)),
{
    let name = archive_name(root);
    DownloadHead {
        content_type: "application/zip".to_owned(),
        content_length: len,
        content_type_options: "nosniff".to_owned(),
        content_disposition: attachment_disposition(name.as_str()),
    }
}

/// What is known of a file.
#[derive(Debug, Clone, Copy, PartialEq, Eq, Structural)]
pub struct FileMeta {
    pub is_dir: bool,
    pub is_symlink: bool,
    pub len: i64,
    /// Nanoseconds since the epoch.
    pub modified: Option<i128>,
}

/// What is found in a directory.
#[derive(Debug)]
pub struct DirItem {
    pub name: String,
    /// Relative to the workspace.
    pub path: String,
    /// Absent where nothing could be found out.
    pub meta: Option<FileMeta>,
}

/// Whether `e` shows `item`.
pub open spec fn shows_item(item: DirItem, e: WorkspaceFileEntry) -> bool {
    &&& e.name == item.name
    &&& e.path == item.path
    &&& match item.meta {
        Some(m) => e.is_dir == m.is_dir && e.is_symlink == m.is_symlink && e.size_bytes == m.len
            && e.modified == m.modified,
        None => !e.is_dir && !e.is_symlink && e.size_bytes == 0 && e.modified is None,
    }
}

/// Whether a listing shows an item.
pub open spec fn listed_item(item: DirItem) -> bool {
    !hidden(item.name@) && !denied(item.name@)
}

/// The items that a listing shows, in the order in which they were found.
pub open spec fn listed_items(items: Seq<DirItem>) -> Seq<DirItem>
    decreases items.len(),
{
    if items.len() == 0 {
        Seq::empty()
    } else {
        let head = listed_items(items.drop_last());
        if listed_item(items.last()) {
            head.push(items.last())
        } else {
            head
        }
    }
}

/// The texts in the order of their characters' code points.
pub open spec fn text_before(a: Seq<char>, b: Seq<char>) -> bool
    decreases a.len(),
{
    if b.len() == 0 {
        false
    } else if a.len() == 0 {
        true
    } else if a[0] != b[0] {
        a[0] < b[0]
    } else {
        text_before(a.skip(1), b.skip(1))
    }
}

/// Whether `a` is listed before `b`: directories first, then by name without
/// regard to case.
pub open spec fn entry_before(a: WorkspaceFileEntry, b: WorkspaceFileEntry) -> bool {
    if a.is_dir != b.is_dir {
        a.is_dir
    } else {
        text_before(lowercase_text(a.name@), lowercase_text(b.name@))
    }
}

/// Where an entry goes among sorted ones: behind everything that it is not
/// before.
pub open spec fn insert_at(sorted: Seq<WorkspaceFileEntry>, e: WorkspaceFileEntry, n: int) -> int
    decreases n,
{
    if n <= 0 || n > sorted.len() || !entry_before(e, sorted[n - 1]) {
        n
    } else {
        insert_at(sorted, e, n - 1)
    }
}

/// The entries in the order in which they are listed. Entries that are alike
/// stay in the order in which they were found.
pub open spec fn sorted_entries(entries: Seq<WorkspaceFileEntry>) -> Seq<WorkspaceFileEntry>
    decreases entries.len(),
{
    if entries.len() == 0 {
        Seq::empty()
    } else {
        let head = sorted_entries(entries.drop_last());
        head.insert(insert_at(head, entries.last(), head.len() as int), entries.last())
    }
}

fn is_text_before(a: &Vec<char>, b: &Vec<char>) -> (r: bool)
    ensures
        r == text_before(a@, b@),
{
    let mut i: usize = 0;
    proof {
        assert(a@.skip(0) =~= a@);
        assert(b@.skip(0) =~= b@);
    }
    loop
        invariant
            i <= a@.len(),
            i <= b@.len(),
            text_before(a@, b@) == text_before(a@.skip(i as int), b@.skip(i as int)),
        decreases a@.len() - i,
    {
        if i == b.len() {
            return false;
        }
        if i == a.len() {
            return true;
        }
        if a[i] != b[i] {
            return a[i] < b[i];
        }
        proof {
            assert(a@.skip(i as int).skip(1) =~= a@.skip(i + 1));
            assert(b@.skip(i as int).skip(1) =~= b@.skip(i + 1));
        }
        i = i + 1;
    }
}

fn lowered_name(e: &WorkspaceFileEntry) -> (chars: Vec<char>)
    ensures
        chars@ == lowercase_text(e.name@),
{
    chars_of(to_lowercase(e.name.as_str()).as_str())
}

fn goes_before(
    a: &WorkspaceFileEntry,
    a_key: &Vec<char>,
    b: &WorkspaceFileEntry,
    b_key: &Vec<char>,
) -> (r: bool)
    requires
        a_key@ == lowercase_text(a.name@),
        b_key@ == lowercase_text(b.name@),
    ensures
        r == entry_before(*a, *b),
{
    if a.is_dir != b.is_dir {
        a.is_dir
    } else {
        is_text_before(a_key, b_key)
    }
}

/// Sorts the entries of a listing.
pub fn sort_entries(entries: Vec<WorkspaceFileEntry>) -> (out: Vec<WorkspaceFileEntry>)
    ensures
        out@ == sorted_entries(entries@),
{
    let ghost all = entries@;
    let mut rest = entries;
    let mut unsorted: Vec<WorkspaceFileEntry> = Vec::new();
    // Reverse, so that taking from the end goes through the entries in order.
    while rest.len() > 0
        invariant
            rest@.len() + unsorted@.len() == all.len(),
            rest@ == all.take(rest@.len() as int),
            forall|i: int|
                0 <= i < unsorted@.len() ==> #[trigger] unsorted@[i] == all[all.len() - 1 - i],
        decreases rest@.len(),
    {
        if let Some(e) = rest.pop() {
            unsorted.push(e);
        }
    }
    let mut out: Vec<WorkspaceFileEntry> = Vec::new();
    let mut keys: Vec<Vec<char>> = Vec::new();
    while unsorted.len() > 0
        invariant
            unsorted@.len() + out@.len() == all.len(),
            forall|i: int|
                0 <= i < unsorted@.len() ==> #[trigger] unsorted@[i] == all[all.len() - 1 - i],
            out@ == sorted_entries(all.take(out@.len() as int)),
            keys@.len() == out@.len(),
            forall|i: int|
                0 <= i < keys@.len() ==> (#[trigger] keys@[i])@ == lowercase_text(out@[i].name@),
        decreases unsorted@.len(),
    {
        let ghost k = out@.len() as int;
        if let Some(e) = unsorted.pop() {
            proof {
                assert(e == all[k]);
                assert(all.take(k + 1).drop_last() =~= all.take(k));
                assert(all.take(k + 1).last() == e);
            }
            let key = lowered_name(&e);
            let mut n: usize = out.len();
            while n > 0 && goes_before(&e, &key, &out[n - 1], &keys[n - 1])
                invariant
                    n <= out@.len(),
                    keys@.len() == out@.len(),
                    key@ == lowercase_text(e.name@),
                    forall|i: int|
                        0 <= i < keys@.len() ==> (#[trigger] keys@[i])@ == lowercase_text(
                            out@[i].name@,
                        ),
                    insert_at(out@, e, out@.len() as int) == insert_at(out@, e, n as int),
                decreases n,
            {
                n = n - 1;
            }
            let ghost out0 = out@;
            let ghost keys0 = keys@;
            out.insert(n, e);
            keys.insert(n, key);
            proof {
                assert(out@ == out0.insert(n as int, e));
                assert(keys@ == keys0.insert(n as int, key));
                assert forall|i: int| 0 <= i < keys@.len() implies (#[trigger] keys@[i])@
                    == lowercase_text(out@[i].name@) by {
                    if i < n {
                        assert(keys@[i] == keys0[i]);
                        assert(out@[i] == out0[i]);
                    } else if i > n {
                        assert(keys@[i] == keys0[i - 1]);
                        assert(out@[i] == out0[i - 1]);
                    }
                }
            }
        }
    }
    proof {
        assert(all.take(all.len() as int) =~= all);
    }
    out
}

/// Whether `l` lists the directory at `path`, where `items` were found.
pub open spec fn lists(path: String, items: Seq<DirItem>, l: WorkspaceDirListing) -> bool {
    &&& l.path == path
    &&& l.truncated == (listed_items(items).len() > MAX_LIST_ENTRIES)
    &&& exists|shown: Seq<WorkspaceFileEntry>| #[trigger]
        shows_first(items, shown) && l.entries@ == sorted_entries(shown)
}

/// Lists a directory from what was found in it: what is hidden or off limits is
/// left out, and no more is shown than the limit allows.
pub fn list_directory(path: String, items: &Vec<DirItem>) -> (l: WorkspaceDirListing)
    ensures
        lists(path, items@, l),
{
    let mut shown: Vec<WorkspaceFileEntry> = Vec::new();
    let mut truncated = false;
    let mut i: usize = 0;
    while i < items.len() && !truncated
        invariant
            i <= items@.len(),
            !truncated ==> listed_items(items@.take(i as int)).len() == shown@.len(),
            truncated ==> shown@.len() == MAX_LIST_ENTRIES && listed_items(
                items@.take(i as int),
            ).len() == MAX_LIST_ENTRIES + 1,
            shown@.len() <= MAX_LIST_ENTRIES,
            shown@.len() <= listed_items(items@.take(i as int)).len(),
            forall|j: int|
                0 <= j < shown@.len() ==> shows_item(
                    listed_items(items@.take(i as int))[j],
                    #[trigger] shown@[j],
                ),
        decreases items@.len() - i,
    {
        proof {
            assert(items@.take(i + 1).drop_last() =~= items@.take(i as int));
            assert(items@.take(i + 1).last() == items@[i as int]);
        }
        let item = &items[i];
        if !is_hidden(item.name.as_str()) && !is_denied_component(item.name.as_str()) {
            if shown.len() >= MAX_LIST_ENTRIES {
                truncated = true;
            } else {
                let (is_dir, is_symlink, size_bytes, modified) = match item.meta {
                    Some(m) => (m.is_dir, m.is_symlink, m.len, m.modified),
                    None => (false, false, 0, None),
                };
                shown.push(
                    WorkspaceFileEntry {
                        name: item.name.clone(),
                        path: item.path.clone(),
                        is_dir,
                        is_symlink,
                        size_bytes,
                        modified,
                    },
                );
            }
        }
        i = i + 1;
    }
    proof {
        lemma_listed_grows(items@, i as int);
        assert(items@.take(items@.len() as int) =~= items@);
        assert(shows_first(items@, shown@));
    }
    WorkspaceDirListing { path, entries: sort_entries(shown), truncated }
}

/// Whether `shown` shows the first of the items that a listing shows, up to the
/// limit.
pub open spec fn shows_first(items: Seq<DirItem>, shown: Seq<WorkspaceFileEntry>) -> bool {
    &&& shown.len() == (if listed_items(items).len() > MAX_LIST_ENTRIES {
        MAX_LIST_ENTRIES as nat
    } else {
        listed_items(items).len()
    })
    &&& forall|j: int|
        0 <= j < shown.len() ==> shows_item(listed_items(items)[j], #[trigger] shown[j])
}

proof fn lemma_listed_grows(items: Seq<DirItem>, k: int)
    requires
        0 <= k <= items.len(),
    ensures
        listed_items(items.take(k)).len() <= listed_items(items).len(),
        forall|j: int|
            0 <= j < listed_items(items.take(k)).len() ==> listed_items(items)[j]
                == #[trigger] listed_items(items.take(k))[j],
    decreases items.len(),
{
    if k < items.len() {
        let head = items.drop_last();
        assert(head.take(k) =~= items.take(k));
        lemma_listed_grows(head, k);
    } else {
        assert(items.take(k) =~= items);
    }
}

/// The directory that an upload names, where it names one.
pub open spec fn named_target(path: Option<String>) -> Option<String> {
    if path is Some && trimmed(path->0@).len() > 0 {
        path
    } else {
        None
    }
}

/// The directory that an upload names, where it names one.
pub fn upload_target(query: &UploadQuery) -> (r: Option<String>)
    ensures
        r == named_target(query.path),
{
    match &query.path {
        Some(p) => {
            if is_blank(p.as_str()) {
                None
            } else {
                Some(p.clone())
            }
        },
        None => None,
    }
}

/// Takes the next file of an upload, `uploaded` files after the first: the name
/// that it is stored under.
pub fn admit_upload(uploaded: usize, raw_name: &str) -> (r: Result<String, ApiError>)
    ensures
        if uploaded >= MAX_UPLOAD_FILES {
            r is Err && bad_request(r->Err_0, "Too many files (max 50)"@)
        } else {
            match final_name(trimmed(raw_name@)) {
                None => r is Err && bad_request(r->Err_0, "Invalid file name"@),
                Some(base) => if !acceptable(base) {
                    r is Err && bad_request(r->Err_0, "Invalid file name"@)
                } else if denied(base) {
                    r is Err && forbidden(
                        r->Err_0,
                        "A file named '"@ + base + "' is not allowed"@,
                    )
                } else {
                    r is Ok && r->Ok_0@ == base
                },
            }
        },
{
    if uploaded >= MAX_UPLOAD_FILES {
        return Err(ApiError::BadRequest("Too many files (max 50)".to_owned()));
    }
    safe_basename(raw_name)
}

/// The refusal of a file that is there already.
pub fn already_exists(name: &str) -> (e: ApiError)
    ensures
        conflict(e, "File '"@ + name@ + "' already exists"@),
{
    ApiError::Conflict(concat3("File '", name, "' already exists"))
}

/// Refuses a file that is there already, unless it may be replaced.
pub fn check_existing(name: &str, overwrite: bool, present: bool) -> (r: Option<ApiError>)
    ensures
        if !overwrite && present {
            r is Some && conflict(r->0, "File '"@ + name@ + "' already exists"@)
        } else {
            r is None
        },
{
    if !overwrite && present {
        Some(already_exists(name))
    } else {
        None
    }
}

/// The name of the file that an upload is streamed to; `id` is its identifier.
pub fn upload_temp_name(id: &str) -> (name: String)
    ensures
        name@ == ".bc-upload-"@ + id@ + ".tmp"@,
{
    concat3(".bc-upload-", id, ".tmp")
}

/// How much of a file has arrived.
#[derive(Debug, Clone, Copy, PartialEq, Eq, Structural)]
pub struct UploadMeter {
    pub written: u64,
}

impl UploadMeter {
    pub open spec fn valid(self) -> bool {
        self.written <= MAX_UPLOAD_FILE_BYTES
    }

    pub fn new() -> (m: UploadMeter)
        ensures
            m.written == 0,
            m.valid(),
    {
        UploadMeter { written: 0 }
    }

    /// Counts a chunk; `false` where it is more than a file may hold. Nothing of
    /// such a chunk is written.
    pub fn take(&mut self, len: u64) -> (within: bool)
        requires
            old(self).valid(),
        ensures
            within == (old(self).written + len <= MAX_UPLOAD_FILE_BYTES),
            final(self).written == if within {
                old(self).written + len
            } else {
                old(self).written as int
            },
            final(self).valid(),
    {
        if len > MAX_UPLOAD_FILE_BYTES - self.written {
            return false;
        }
        self.written = self.written + len;
        true
    }
}

/// The entry for a file that was uploaded. Where nothing can be found out of the
/// file, its size is what was written.
pub fn uploaded_entry(
    name: String,
    path: String,
    meta: Option<FileMeta>,
    meter: UploadMeter,
) -> (e: WorkspaceFileEntry)
    requires
        meter.valid(),
    ensures
        e.name == name,
        e.path == path,
        !e.is_dir,
        !e.is_symlink,
        e.size_bytes == (match meta {
            Some(m) => m.len as int,
            None => meter.written as int,
        }),
        e.modified == (match meta {
            Some(m) => m.modified,
            None => None,
        }),
{
    let (size_bytes, modified) = match meta {
        Some(m) => (m.len, m.modified),
        None => (meter.written as i64, None),
    };
    WorkspaceFileEntry { name, path, is_dir: false, is_symlink: false, size_bytes, modified }
}

/// What an upload is answered with: the files, or a refusal where there was
/// none.
pub fn finish_upload(uploaded: Vec<WorkspaceFileEntry>) -> (r: Result<
    Vec<WorkspaceFileEntry>,
    ApiError,
>)
    ensures
        if uploaded@.len() == 0 {
            r is Err && bad_request(r->Err_0, "No files in upload"@)
        } else {
            r == Ok::<Vec<WorkspaceFileEntry>, ApiError>(uploaded)
        },
{
    if uploaded.len() == 0 {
        Err(ApiError::BadRequest("No files in upload".to_owned()))
    } else {
        Ok(uploaded)
    }
}

/// Refuses a request that came through the relay: the Files browser is for the
/// local machine alone.
pub fn reject_relay(relay_header: Option<&str>) -> (r: Option<ApiError>)
    ensures
        if relay_header is Some && trimmed(relay_header->0@) == "1"@ {
            r is Some && forbidden(
                r->0,
                "The Files browser is only available on local deployments"@,
            )
        } else {
            r is None
        },
{
    match relay_header {
        Some(v) => {
            let clean = trim(v);
            if same_text(clean.as_str(), "1") {
                Some(
                    ApiError::Forbidden(
                        "The Files browser is only available on local deployments".to_owned(),
                    ),
                )
            } else {
                None
            }
        },
        None => None,
    }
}

proof fn lemma_text_order(a: Seq<char>, b: Seq<char>, c: Seq<char>)
    ensures
        !(text_before(a, b) && text_before(b, a)),
        text_before(a, c) ==> text_before(a, b) || text_before(b, c),
    decreases a.len(),
{
    if a.len() > 0 && b.len() > 0 {
        if c.len() > 0 {
            lemma_text_order(a.skip(1), b.skip(1), c.skip(1));
            if text_before(a, c) && a[0] == b[0] && b[0] == c[0] {
                assert(text_before(a.skip(1), c.skip(1)));
            }
        } else {
            lemma_text_order(a.skip(1), b.skip(1), c);
        }
    }
}

proof fn lemma_entry_order(
    a: WorkspaceFileEntry,
    b: WorkspaceFileEntry,
    c: WorkspaceFileEntry,
)
    ensures
        !(entry_before(a, b) && entry_before(b, a)),
        entry_before(a, c) ==> entry_before(a, b) || entry_before(b, c),
{
    lemma_text_order(
        lowercase_text(a.name@),
        lowercase_text(b.name@),
        lowercase_text(c.name@),
    );
}

/// Whether no entry stands behind one that it is listed before.
pub open spec fn in_order(s: Seq<WorkspaceFileEntry>) -> bool {
    forall|i: int, j: int| 0 <= i < j < s.len() ==> !entry_before(#[trigger] s[j], #[trigger] s[i])
}

proof fn lemma_insert_at(s: Seq<WorkspaceFileEntry>, e: WorkspaceFileEntry, n: int)
    requires
        0 <= n <= s.len(),
    ensures
        0 <= insert_at(s, e, n) <= n,
        forall|k: int| insert_at(s, e, n) <= k < n ==> entry_before(e, #[trigger] s[k]),
        insert_at(s, e, n) > 0 ==> !entry_before(e, s[insert_at(s, e, n) - 1]),
    decreases n,
{
    if n > 0 && entry_before(e, s[n - 1]) {
        lemma_insert_at(s, e, n - 1);
    }
}

/// A listing is in order, and holds what was found and nothing else: directories
/// come first, and names follow without regard to case.
pub proof fn law_listing_is_sorted(entries: Seq<WorkspaceFileEntry>)
    ensures
        in_order(sorted_entries(entries)),
        sorted_entries(entries).to_multiset() == entries.to_multiset(),
    decreases entries.len(),
{
    if entries.len() > 0 {
        law_listing_is_sorted(entries.drop_last());
        let head = sorted_entries(entries.drop_last());
        let e = entries.last();
        let p = insert_at(head, e, head.len() as int);
        lemma_insert_at(head, e, head.len() as int);
        let s = head.insert(p, e);
        assert forall|i: int, j: int| 0 <= i < j < s.len() implies !entry_before(
            #[trigger] s[j],
            #[trigger] s[i],
        ) by {
            if j == p {
                lemma_entry_order(e, head[p - 1], head[i]);
                if i < p - 1 {
                    assert(!entry_before(head[p - 1], head[i]));
                }
            } else if i == p {
                lemma_entry_order(e, head[j - 1], e);
                assert(entry_before(e, head[j - 1]));
            } else {
                let a = if i < p { i } else { i - 1 };
                let b = if j < p { j } else { j - 1 };
                assert(s[i] == head[a]);
                assert(s[j] == head[b]);
            }
        }
        s.to_multiset_ensures();
        assert(s.remove(p) =~= head);
        assert(s[p] == e);
        assert(s.contains(e));
        assert(s.to_multiset() =~= head.to_multiset().insert(e));
        entries.drop_last().to_multiset_ensures();
        assert(entries =~= entries.drop_last().push(e));
        assert(entries.to_multiset() =~= entries.drop_last().to_multiset().insert(e));
    } else {
        assert(sorted_entries(entries) =~= entries);
    }
}

/// Names are ordered as words in a dictionary are: the first place at which they
/// differ decides, and where there is none the shorter one comes first. Of two
/// different names exactly one comes before the other, and no name before itself.
pub proof fn law_names_are_in_dictionary_order(a: Seq<char>, b: Seq<char>)
    ensures
        forall|k: int|
            0 <= k < a.len() && k < b.len() && (forall|j: int| 0 <= j < k ==> a[j] == b[j])
                && #[trigger] a[k] != b[k] ==> text_before(a, b) == (a[k] < b[k]),
        a.len() < b.len() && b.take(a.len() as int) == a ==> text_before(a, b) && !text_before(
            b,
            a,
        ),
        a != b ==> text_before(a, b) != text_before(b, a),
        !text_before(a, a),
    decreases a.len(),
{
    if a.len() > 0 && b.len() > 0 {
        let (x, y) = (a.skip(1), b.skip(1));
        law_names_are_in_dictionary_order(x, y);
        if a[0] == b[0] && a != b {
            if x == y {
                assert(a =~= seq![a[0]] + x);
                assert(b =~= seq![b[0]] + y);
            }
        }
        assert forall|k: int|
            0 <= k < a.len() && k < b.len() && (forall|j: int| 0 <= j < k ==> a[j] == b[j])
                && #[trigger] a[k] != b[k] implies text_before(a, b) == (a[k] < b[k]) by {
            if k > 0 {
                assert(a[0] == b[0]);
                assert(x[k - 1] == a[k] && y[k - 1] == b[k]);
                assert forall|j: int| 0 <= j < k - 1 implies x[j] == y[j] by {
                    assert(a[j + 1] == b[j + 1]);
                }
            }
        }
        if a.len() < b.len() && b.take(a.len() as int) == a {
            assert(b.take(a.len() as int)[0] == a[0]);
            assert(y.take(x.len() as int) =~= x) by {
                assert forall|j: int| 0 <= j < x.len() implies y[j] == x[j] by {
                    assert(b.take(a.len() as int)[j + 1] == a[j + 1]);
                }
            }
        }
    }
    if a.len() > 0 {
        law_names_are_in_dictionary_order(a.skip(1), a.skip(1));
    }
    if a != b && a.len() == 0 && b.len() == 0 {
        assert(a =~= b);
    }
}

/// Where the entries of a sorted listing were found.
pub open spec fn sorted_places(entries: Seq<WorkspaceFileEntry>) -> Seq<int>
    decreases entries.len(),
{
    if entries.len() == 0 {
        Seq::empty()
    } else {
        let head = sorted_entries(entries.drop_last());
        sorted_places(entries.drop_last()).insert(
            insert_at(head, entries.last(), head.len() as int),
            entries.len() - 1,
        )
    }
}

/// Whether `places` rearranges `found` into `sorted`: every entry found stands
/// at one place, and nothing else does.
pub open spec fn rearranges(
    found: Seq<WorkspaceFileEntry>,
    places: Seq<int>,
    sorted: Seq<WorkspaceFileEntry>,
) -> bool {
    &&& places.len() == found.len()
    &&& sorted.len() == found.len()
    &&& forall|i: int|
        0 <= i < sorted.len() ==> 0 <= #[trigger] places[i] < found.len() && sorted[i]
            == found[places[i]]
    &&& forall|i: int, j: int|
        0 <= i < j < sorted.len() ==> #[trigger] places[i] != #[trigger] places[j]
}

proof fn lemma_sorted_places(entries: Seq<WorkspaceFileEntry>)
    ensures
        rearranges(entries, sorted_places(entries), sorted_entries(entries)),
        forall|i: int, j: int|
            0 <= i < j < entries.len() && sorted_places(entries)[i] > sorted_places(entries)[j]
                ==> entry_before(
                #[trigger] sorted_entries(entries)[i],
                #[trigger] sorted_entries(entries)[j],
            ),
    decreases entries.len(),
{
    if entries.len() > 0 {
        let rest = entries.drop_last();
        lemma_sorted_places(rest);
        let head = sorted_entries(rest);
        let e = entries.last();
        let p = insert_at(head, e, head.len() as int);
        lemma_insert_at(head, e, head.len() as int);
        let s = head.insert(p, e);
        let at = sorted_places(rest);
        let q = at.insert(p, entries.len() - 1);
        assert(s == sorted_entries(entries) && q == sorted_places(entries));
        assert forall|i: int| 0 <= i < s.len() implies 0 <= #[trigger] q[i] < entries.len() && s[i]
            == entries[q[i]] by {
            if i != p {
                let k = if i < p {
                    i
                } else {
                    i - 1
                };
                assert(q[i] == at[k] && s[i] == head[k]);
            }
        }
        assert forall|i: int, j: int| 0 <= i < j < s.len() implies #[trigger] q[i]
            != #[trigger] q[j] by {
            let a = if i < p {
                i
            } else {
                i - 1
            };
            let b = if j < p {
                j
            } else {
                j - 1
            };
            assert(i != p ==> q[i] == at[a]);
            assert(j != p ==> q[j] == at[b]);
        }
        assert forall|i: int, j: int| 0 <= i < j < s.len() && q[i] > q[j] implies entry_before(
            #[trigger] s[i],
            #[trigger] s[j],
        ) by {
            let a = if i < p {
                i
            } else {
                i - 1
            };
            let b = if j < p {
                j
            } else {
                j - 1
            };
            assert(i != p ==> q[i] == at[a] && s[i] == head[a]);
            assert(j != p ==> q[j] == at[b] && s[j] == head[b]);
        }
    }
}

/// The places of the items that a listing shows.
pub open spec fn listed_places(items: Seq<DirItem>) -> Seq<int>
    decreases items.len(),
{
    if items.len() == 0 {
        Seq::empty()
    } else {
        let head = listed_places(items.drop_last());
        if listed_item(items.last()) {
            head.push(items.len() - 1)
        } else {
            head
        }
    }
}

proof fn lemma_listed_places(items: Seq<DirItem>)
    ensures
        listed_places(items).len() == listed_items(items).len(),
        forall|j: int|
            0 <= j < listed_places(items).len() ==> {
                &&& 0 <= #[trigger] listed_places(items)[j] < items.len()
                &&& items[listed_places(items)[j]] == listed_items(items)[j]
                &&& listed_item(items[listed_places(items)[j]])
            },
        forall|i: int, j: int|
            0 <= i < j < listed_places(items).len() ==> #[trigger] listed_places(items)[i]
                < #[trigger] listed_places(items)[j],
        forall|k: int|
            0 <= k < items.len() && listed_item(#[trigger] items[k]) ==> listed_places(
                items,
            ).contains(k),
    decreases items.len(),
{
    if items.len() > 0 {
        let rest = items.drop_last();
        lemma_listed_places(rest);
        let head = listed_places(rest);
        let all = listed_places(items);
        assert forall|k: int| 0 <= k < items.len() && listed_item(
            #[trigger] items[k],
        ) implies all.contains(k) by {
            if k < rest.len() {
                assert(rest[k] == items[k]);
                let j = choose|j: int| 0 <= j < head.len() && head[j] == k;
                assert(all[j] == k);
            } else {
                assert(all[all.len() - 1] == k);
            }
        }
    }
}

/// Whether `order` names the items that `l` shows, entry by entry: whatever is
/// neither hidden nor off limits, the first of them where there are too many.
pub open spec fn shows_all_visible(
    items: Seq<DirItem>,
    order: Seq<int>,
    l: WorkspaceDirListing,
) -> bool {
    &&& order.len() == l.entries@.len()
    &&& order.len() <= MAX_LIST_ENTRIES
    &&& forall|i: int|
        0 <= i < order.len() ==> 0 <= #[trigger] order[i] < items.len() && !hidden(
            items[order[i]].name@,
        ) && !denied(items[order[i]].name@)
    &&& forall|i: int, j: int| 0 <= i < j < order.len() ==> #[trigger] order[i] != #[trigger] order[j]
    &&& forall|k: int|
        0 <= k < items.len() && !hidden((#[trigger] items[k]).name@) && !denied(items[k].name@)
            ==> order.contains(k) || l.truncated && order.len() == MAX_LIST_ENTRIES && forall|i: int|
            0 <= i < order.len() ==> #[trigger] order[i] < k
    &&& l.truncated ==> exists|k: int|
        0 <= k < items.len() && !hidden((#[trigger] items[k]).name@) && !denied(items[k].name@)
            && !order.contains(k)
}

/// A listing shows every item that is neither hidden nor off limits, once, as it
/// was found; only beyond the limit are the items that were found last left out,
/// and the listing then says so.
pub proof fn law_listing_shows_what_is_visible(
    path: String,
    items: Seq<DirItem>,
    l: WorkspaceDirListing,
)
    requires
        lists(path, items, l),
    ensures
        l.path == path,
        exists|order: Seq<int>| #[trigger]
            shows_all_visible(items, order, l) && shown_in_order(items, order, l),
{
    let shown = choose|shown: Seq<WorkspaceFileEntry>| #[trigger]
        shows_first(items, shown) && l.entries@ == sorted_entries(shown);
    lemma_sorted_places(shown);
    lemma_listed_places(items);
    law_listing_is_sorted(shown);
    let places = sorted_places(shown);
    let at = listed_places(items);
    let order = Seq::new(shown.len(), |i: int| at[places[i]]);
    let sorted = sorted_entries(shown);
    let n = shown.len() as int;
    assert forall|i: int| 0 <= i < n implies 0 <= #[trigger] order[i] < items.len() && !hidden(
        items[order[i]].name@,
    ) && !denied(items[order[i]].name@) && shows_item(items[order[i]], sorted[i]) by {
        let m = places[i];
        assert(0 <= m < n);
        assert(order[i] == at[m]);
        assert(shows_item(listed_items(items)[m], shown[m]));
    }
    assert forall|i: int, j: int| 0 <= i < j < n implies #[trigger] order[i]
        != #[trigger] order[j] by {
        let (x, y) = (places[i], places[j]);
        assert(at[x] < at[y] || at[y] < at[x]);
    }
    assert forall|k: int|
        0 <= k < items.len() && !hidden((#[trigger] items[k]).name@) && !denied(
            items[k].name@,
        ) implies order.contains(k) || l.truncated && order.len() == MAX_LIST_ENTRIES
        && forall|i: int| 0 <= i < order.len() ==> #[trigger] order[i] < k by {
        assert(listed_item(items[k]));
        let m = choose|m: int| 0 <= m < at.len() && at[m] == k;
        if m < n {
            lemma_every_place_is_taken(places, n, m);
            let i = choose|i: int| 0 <= i < n && places[i] == m;
            assert(order[i] == k);
        } else {
            assert forall|i: int| 0 <= i < order.len() implies #[trigger] order[i] < k by {
                assert(0 <= places[i] < n);
                assert(at[places[i]] < at[m]);
            }
        }
    }
    if l.truncated {
        let k = at[n];
        assert(!hidden(items[k].name@) && !denied(items[k].name@));
        assert(!order.contains(k)) by {
            assert forall|i: int| 0 <= i < n implies order[i] != k by {
                assert(at[places[i]] < at[n]);
            }
        }
    }
    assert(shows_all_visible(items, order, l));
    assert forall|i: int, j: int| 0 <= i < j < n implies in_place(
        items,
        order,
        #[trigger] l.entries@[i],
        #[trigger] l.entries@[j],
        i,
        j,
    ) by {
        let (x, y) = (lowercase_text(sorted[i].name@), lowercase_text(sorted[j].name@));
        assert(!entry_before(sorted[j], sorted[i]));
        law_names_are_in_dictionary_order(x, y);
        law_names_are_in_dictionary_order(y, x);
        law_names_are_in_dictionary_order(x, x);
        if order[i] > order[j] {
            assert(places[i] > places[j]) by {
                if places[i] < places[j] {
                    assert(at[places[i]] < at[places[j]]);
                }
            }
            assert(entry_before(sorted[i], sorted[j]));
        }
    }
}

/// Whether what is listed as `a` at `i` and as `b` behind it at `j` is in place:
/// directories come first, then the names decide, without regard to case, and of
/// two whose names are alike the one that was found first comes first.
pub open spec fn in_place(
    items: Seq<DirItem>,
    order: Seq<int>,
    a: WorkspaceFileEntry,
    b: WorkspaceFileEntry,
    i: int,
    j: int,
) -> bool {
    let (x, y) = (lowercase_text(a.name@), lowercase_text(b.name@));
    &&& b.is_dir ==> a.is_dir
    &&& a.is_dir == b.is_dir ==> {
        &&& forall|k: int|
            0 <= k < x.len() && k < y.len() && (forall|m: int| 0 <= m < k ==> x[m] == y[m])
                && #[trigger] x[k] != y[k] ==> x[k] < y[k]
        &&& !(y.len() < x.len() && x.take(y.len() as int) == y)
        &&& x == y ==> order[i] < order[j]
    }
}

/// Whether the entries of `l` show the items that `order` names, and stand in
/// place.
pub open spec fn shown_in_order(
    items: Seq<DirItem>,
    order: Seq<int>,
    l: WorkspaceDirListing,
) -> bool {
    &&& forall|i: int|
        0 <= i < l.entries@.len() ==> {
            let item = items[order[i]];
            let e = #[trigger] l.entries@[i];
            &&& e.name == item.name
            &&& e.path == item.path
            &&& e.is_dir == (item.meta is Some && item.meta->0.is_dir)
            &&& e.is_symlink == (item.meta is Some && item.meta->0.is_symlink)
            &&& item.meta is Some ==> e.size_bytes == item.meta->0.len && e.modified
                == item.meta->0.modified
            &&& item.meta is None ==> e.size_bytes == 0 && e.modified is None
        }
    &&& forall|i: int, j: int|
        0 <= i < j < l.entries@.len() ==> in_place(
            items,
            order,
            #[trigger] l.entries@[i],
            #[trigger] l.entries@[j],
            i,
            j,
        )
}

/// `n` different numbers below `n` are all of them.
proof fn lemma_every_place_is_taken(places: Seq<int>, n: int, m: int)
    requires
        places.len() == n,
        0 <= m < n,
        forall|i: int| 0 <= i < n ==> 0 <= #[trigger] places[i] < n,
        forall|i: int, j: int| 0 <= i < j < n ==> #[trigger] places[i] != #[trigger] places[j],
    ensures
        exists|i: int| 0 <= i < n && #[trigger] places[i] == m,
    decreases n,
{
    let last = places[n - 1];
    if last != m {
        // Without the last place, and with the greatest number in its stead, the
        // rest is such a sequence, one shorter.
        let rest = Seq::new(
            (n - 1) as nat,
            |i: int|
                if places[i] == n - 1 {
                    last
                } else {
                    places[i]
                },
        );
        let sought = if m == n - 1 {
            last
        } else {
            m
        };
        assert forall|i: int| 0 <= i < n - 1 implies 0 <= #[trigger] rest[i] < n - 1 by {
            assert(places[i] != places[n - 1]);
        }
        assert forall|i: int, j: int| 0 <= i < j < n - 1 implies #[trigger] rest[i]
            != #[trigger] rest[j] by {
            assert(places[i] != places[j]);
            assert(places[i] != places[n - 1]);
            assert(places[j] != places[n - 1]);
        }
        lemma_every_place_is_taken(rest, n - 1, sought);
        let i = choose|i: int| 0 <= i < n - 1 && #[trigger] rest[i] == sought;
        assert(places[i] == m);
    }
}

/// The number that an upper-case hexadecimal digit stands for.
pub open spec fn upper_hex_value(c: char) -> int {
    if '0' <= c <= '9' {
        c as int - '0' as int
    } else {
        c as int - 'A' as int + 10
    }
}

/// The bytes that a header's extended value stands for.
pub open spec fn percent_decoded(s: Seq<char>) -> Seq<u8>
    decreases s.len(),
{
    if s.len() == 0 {
        Seq::empty()
    } else if s[0] == '%' && s.len() >= 3 {
        seq![(16 * upper_hex_value(s[1]) + upper_hex_value(s[2])) as u8] + percent_decoded(s.skip(3))
    } else {
        seq![s[0] as u8] + percent_decoded(s.skip(1))
    }
}

proof fn lemma_encoded_from_front(bytes: Seq<u8>)
    requires
        bytes.len() > 0,
    ensures
        percent_encoded(bytes) == encoded_byte(bytes[0]) + percent_encoded(bytes.skip(1)),
    decreases bytes.len(),
{
    if bytes.len() == 1 {
        assert(bytes.drop_last() =~= Seq::<u8>::empty());
        assert(bytes.skip(1) =~= Seq::<u8>::empty());
        assert(percent_encoded(bytes) =~= encoded_byte(bytes[0]) + percent_encoded(bytes.skip(1)));
    } else {
        lemma_encoded_from_front(bytes.drop_last());
        assert(bytes.drop_last().skip(1) =~= bytes.skip(1).drop_last());
        assert(percent_encoded(bytes) =~= encoded_byte(bytes[0]) + percent_encoded(bytes.skip(1)));
    }
}

/// A browser reads the very bytes of the name back from the header, so different
/// names get different headers.
pub proof fn law_disposition_keeps_the_name(bytes: Seq<u8>)
    ensures
        percent_decoded(percent_encoded(bytes)) == bytes,
    decreases bytes.len(),
{
    if bytes.len() > 0 {
        let b = bytes[0];
        lemma_encoded_from_front(bytes);
        law_disposition_keeps_the_name(bytes.skip(1));
        let tail = percent_encoded(bytes.skip(1));
        let all = percent_encoded(bytes);
        if unreserved(b) {
            assert(all.skip(1) =~= tail);
            assert(all[0] == b as char);
        } else {
            assert(all.skip(3) =~= tail);
            let (hi, lo) = (b as int / 16, b as int % 16);
            assert(all[1] == upper_hex_digit(hi) && all[2] == upper_hex_digit(lo));
            assert(upper_hex_value(all[1]) == hi);
            assert(upper_hex_value(all[2]) == lo);
            assert(16 * hi + lo == b);
        }
        assert(percent_decoded(all) =~= bytes);
    } else {
        assert(percent_decoded(percent_encoded(bytes)) =~= bytes);
    }
}

/// Letters, digits and the four plain marks are shown as they are; every other
/// byte is escaped.
pub proof fn law_plain_names_are_shown_as_they_are(b: u8)
    ensures
        ascii_alphanumeric(b as char) || b as char == '-' || b as char == '.' || b as char == '_'
            || b as char == '~' <==> encoded_byte(b).len() == 1,
        encoded_byte(b).len() == 1 ==> encoded_byte(b)[0] == b as char,
        encoded_byte(b).len() != 1 ==> encoded_byte(b).len() == 3 && encoded_byte(b)[0] == '%',
{
}

/// An archive takes a file while there is room for it, and refuses the first one
/// that there is none for: it never holds more entries, nor is it asked to copy
/// more bytes, than the limits allow.
pub proof fn law_archive_keeps_its_limits(budget: ZipBudget, name: Seq<char>, step: ZipStep)
    requires
        budget.entries <= MAX_ZIP_ENTRIES,
        budget.total_bytes <= MAX_ZIP_UNCOMPRESSED_BYTES,
        budget.decides(name, step),
    ensures
        step is Skip <==> name.len() == 0,
        step is Copy <==> name.len() > 0 && budget.entries < MAX_ZIP_ENTRIES && budget.total_bytes
            < MAX_ZIP_UNCOMPRESSED_BYTES,
        step matches ZipStep::Copy { name: n, remaining } ==> n@ == name && budget.total_bytes
            + remaining == MAX_ZIP_UNCOMPRESSED_BYTES,
        step is Refuse ==> (if budget.entries == MAX_ZIP_ENTRIES {
            step->0 is BadRequest
        } else {
            step->0 is PayloadTooLarge
        }),
{
}

/// An archive's entries name files below the place where it is unpacked: no part
/// of a name leads upwards, to the root, or through a backslash.
pub proof fn law_archive_names_stay_below(parts: Seq<Seq<char>>)
    ensures
        archivable(parts) <==> forall|i: int|
            0 <= i < parts.len() ==> {
                &&& #[trigger] parts[i] != ".."@
                &&& parts[i] != "."@
                &&& forall|k: int|
                    0 <= k < parts[i].len() ==> #[trigger] parts[i][k] != '/' && parts[i][k]
                        != '\\'
            },
{
    reveal_strlit("..");
    reveal_strlit(".");
    assert(".."@ =~= seq!['.', '.']);
    assert("."@ =~= seq!['.']);
    let plain = |p: Seq<char>|
        p != ".."@ && p != "."@ && forall|k: int|
            0 <= k < p.len() ==> #[trigger] p[k] != '/' && p[k] != '\\';
    assert forall|i: int| 0 <= i < parts.len() implies plain(parts[i]) == (is_name(
        #[trigger] parts[i],
    ) && !parts[i].contains('\\') && !parts[i].contains('/')) by {
        let p = parts[i];
        if plain(p) {
            if p == seq!['/'] {
                assert(p[0] == '/');
            }
        } else if is_name(p) {
            let k = choose|k: int| 0 <= k < p.len() && !(#[trigger] p[k] != '/' && p[k] != '\\');
            assert(p[k] == '/' ==> p.contains('/'));
            assert(p[k] == '\\' ==> p.contains('\\'));
        }
    }
    if forall|i: int| 0 <= i < parts.len() ==> plain(#[trigger] parts[i]) {
        assert(archivable(parts));
    }
    if archivable(parts) {
        assert forall|i: int| 0 <= i < parts.len() implies plain(#[trigger] parts[i]) by {
        }
    }
}

/// A path is shown with forward slashes only, and otherwise as it is.
pub proof fn law_shown_paths_have_forward_slashes(s: Seq<char>)
    ensures
        forward_slashes(s).len() == s.len(),
        forall|i: int|
            0 <= i < s.len() ==> #[trigger] forward_slashes(s)[i] != '\\' && (s[i] != '\\' ==>
                forward_slashes(s)[i] == s[i]) && (s[i] == '\\' ==> forward_slashes(s)[i] == '/'),
{
}

/// An upload goes where it says, unless that is absent or blank.
pub proof fn law_blank_target_is_none(path: Option<String>)
    ensures
        path is None ==> named_target(path) is None,
        path matches Some(p) ==> (trimmed(p@).len() == 0 ==> named_target(path) is None) && (trimmed(
            p@,
        ).len() > 0 ==> named_target(path) == Some(p)),
{
}

} // verus!
