//! The image catalog of a folder and the path policy applied before any
//! file is opened: bounded enumeration, natural ordering, local drives only.
//!
//! The caller lists the folder and inspects each entry; the builder decides
//! what is counted, what is kept, and how the result is ordered.
use vstd::prelude::*;

use crate::code;
use crate::error::ViewerError;
use crate::format::{format_of_path, SupportedFormat};
use std::cmp::Ordering;

use crate::natural::{lemma_path_order_antisymmetric, lemma_path_order_transitive, lex_order, natural_order_chars, ordering_of_sign, path_order, sort_name};
use crate::snapshot::ErrorView;
use crate::text::{chars_of, eq_ignore_case, file_name, file_name_of, str_eq, str_eq_ignore_case};

verus! {

broadcast use vstd::seq_lib::group_to_multiset_ensures;

/// The most directory entries one catalog scan visits.
pub const MAX_DIRECTORY_ENTRIES: usize = 100_000;

/// The most image files one catalog holds.
pub const MAX_CATALOG_FILES: usize = 20_000;

pub const DRIVE_UNKNOWN: u32 = 0;

pub const DRIVE_NO_ROOT_DIR: u32 = 1;

pub const DRIVE_REMOVABLE: u32 = 2;

pub const DRIVE_FIXED: u32 = 3;

pub const DRIVE_REMOTE: u32 = 4;

pub const DRIVE_CDROM: u32 = 5;

pub const DRIVE_RAMDISK: u32 = 6;

/// A limit error: the given code and message with the limit as parameter.
pub open spec fn limit_error_view(code: Seq<char>, message: Seq<char>, parameter: Seq<char>, limit: usize) -> ErrorView {
    ErrorView { code, message, parameters: map![parameter => limit as u64] }
}

/// One more than `n`, or `n` itself at the top of the range.
pub open spec fn saturated_next(n: usize) -> usize {
    if n == usize::MAX {
        n
    } else {
        (n + 1) as usize
    }
}

/// Counts one more item against `limit`: the new count, or the limit error
/// once the count would pass the limit.
pub fn checked_count(current: usize, limit: usize, code: &str, message: &str, parameter: &str) -> (r: Result<usize, ViewerError>)
    ensures
        match r {
            Ok(next) => next == saturated_next(current) && next <= limit,
            Err(e) => saturated_next(current) > limit && e@ == limit_error_view(
                code@,
                message@,
                parameter@,
                limit,
            ),
        },
{
    let next = current.saturating_add(1);
    if next > limit {
        return Err(ViewerError::limit(code, message).with_parameter(parameter, limit as u64));
    }
    Ok(next)
}

/// Local-backed storage: removable, fixed, optical and RAM drives.
pub open spec fn spec_drive_allowed(drive_type: u32) -> bool {
    drive_type == DRIVE_REMOVABLE || drive_type == DRIVE_FIXED || drive_type == DRIVE_CDROM || drive_type
        == DRIVE_RAMDISK
}

pub fn is_allowed(drive_type: u32) -> (b: bool)
    ensures
        b == spec_drive_allowed(drive_type),
{
    drive_type != DRIVE_REMOTE && (drive_type == DRIVE_REMOVABLE || drive_type == DRIVE_FIXED || drive_type
        == DRIVE_CDROM || drive_type == DRIVE_RAMDISK)
}

pub open spec fn is_ascii_alpha(c: char) -> bool {
    ('a' <= c && c <= 'z') || ('A' <= c && c <= 'Z')
}

pub open spec fn upper_letter(c: char) -> u8 {
    if 'a' <= c && c <= 'z' {
        (c as u32 - 32) as u8
    } else {
        c as u32 as u8
    }
}

pub open spec fn is_sep(c: char) -> bool {
    c == '/' || c == '\\'
}

/// The drive letter of a Windows path, upper-cased: `X:` at the start, or
/// the verbatim form `\\?\X:`. UNC, device and other verbatim paths (any
/// path that starts with two separators) have none.
pub open spec fn drive_letter_of(p: Seq<char>) -> Option<u8> {
    if p.len() >= 2 && is_sep(p[0]) && is_sep(p[1]) {
        if p.len() >= 6 && p[0] == '\\' && p[1] == '\\' && p[2] == '?' && p[3] == '\\' && is_ascii_alpha(p[4])
            && p[5] == ':' && (p.len() == 6 || p[6] == '\\') {
            Some(upper_letter(p[4]))
        } else {
            None
        }
    } else if p.len() >= 2 && is_ascii_alpha(p[0]) && p[1] == ':' {
        Some(upper_letter(p[0]))
    } else {
        None
    }
}

fn upper(c: char) -> (b: u8)
    requires
        is_ascii_alpha(c),
    ensures
        b == upper_letter(c),
{
    if 'a' <= c && c <= 'z' {
        (c as u32 - 32) as u8
    } else {
        c as u32 as u8
    }
}

pub fn drive_letter(path: &str) -> (r: Option<u8>)
    ensures
        r == drive_letter_of(path@),
{
    let p = chars_of(path);
    let n = p.len();
    let sep0 = n >= 1 && (p[0] == '/' || p[0] == '\\');
    let sep1 = n >= 2 && (p[1] == '/' || p[1] == '\\');
    if sep0 && sep1 {
        if n >= 6 && p[0] == '\\' && p[1] == '\\' && p[2] == '?' && p[3] == '\\' && (('a' <= p[4] && p[4]
            <= 'z') || ('A' <= p[4] && p[4] <= 'Z')) && p[5] == ':' && (n == 6 || p[6] == '\\') {
            Some(upper(p[4]))
        } else {
            None
        }
    } else if n >= 2 && (('a' <= p[0] && p[0] <= 'z') || ('A' <= p[0] && p[0] <= 'Z')) && p[1] == ':' {
        Some(upper(p[0]))
    } else {
        None
    }
}

/// The refusal of a path that is not on a local drive.
pub open spec fn network_error_view(parameters: Map<Seq<char>, u64>) -> ErrorView {
    ErrorView {
        code: "network_path_not_allowed"@,
        message: "基於離線與隱私政策，不允許 UNC、網路或裝置路徑。"@,
        parameters,
    }
}

fn network_path_error() -> (e: ViewerError)
    ensures
        e@ == network_error_view(Map::empty()),
{
    ViewerError::new("network_path_not_allowed", "基於離線與隱私政策，不允許 UNC、網路或裝置路徑。")
}

/// Accepts only paths on a local drive. `drive_type` reports the type of a
/// drive by its letter; it is asked only for a path with a drive letter, so
/// UNC and device paths are refused without any query.
pub fn ensure_local_disk_path<F: Fn(u8) -> u32>(path: &str, drive_type: F) -> (r: Result<(), ViewerError>)
    requires
        forall|letter: u8| drive_type.requires((letter,)),
    ensures
        match drive_letter_of(path@) {
            None => r matches Err(e) && e@ == network_error_view(Map::empty()),
            Some(letter) => exists|t: u32| #[trigger]
                drive_type.ensures((letter,), t) && if spec_drive_allowed(t) {
                    r is Ok
                } else {
                    r matches Err(e) && e@ == network_error_view(map!["driveType"@ => t as u64])
                },
        },
{
    let letter = match drive_letter(path) {
        Some(letter) => letter,
        None => return Err(network_path_error()),
    };
    let t = drive_type(letter);
    if !is_allowed(t) {
        return Err(network_path_error().with_parameter("driveType", t as u64));
    }
    Ok(())
}

/// Opening a catalog entry: a path that is gone is an I/O failure the user
/// can navigate past; every other policy refusal keeps its own code.
pub fn open_validation_error(error: ViewerError) -> (e: ViewerError)
    ensures
        error.code@ == code::INVALID_PATH@ ==> e@ == (ErrorView {
            code: code::IO_ERROR@,
            message: error.message@,
            parameters: Map::empty(),
        }),
        error.code@ != code::INVALID_PATH@ ==> e@ == error@,
{
    if str_eq(error.code.as_str(), code::INVALID_PATH) {
        ViewerError::with_message(code::IO_ERROR, error.message)
    } else {
        error
    }
}

/// A path must be given at all.
pub fn require_path(path: &str) -> (r: Result<(), ViewerError>)
    ensures
        path@.len() == 0 <==> r is Err,
        r matches Err(e) ==> e@ == (ErrorView {
            code: code::INVALID_PATH@,
            message: "未提供檔案路徑。"@,
            parameters: Map::empty(),
        }),
{
    if path.unicode_len() == 0 {
        Err(ViewerError::invalid_path("未提供檔案路徑。"))
    } else {
        Ok(())
    }
}

/// The opened image must carry a supported extension.
pub fn require_supported_extension(path: &str) -> (r: Result<(), ViewerError>)
    ensures
        format_of_path(path@) is None <==> r is Err,
        r matches Err(e) ==> e@ == (ErrorView {
            code: "unsupported_extension"@,
            message: "不支援這個圖片副檔名。"@,
            parameters: Map::empty(),
        }),
{
    if SupportedFormat::from_path(path).is_none() {
        Err(ViewerError::new("unsupported_extension", "不支援這個圖片副檔名。"))
    } else {
        Ok(())
    }
}

// ---------------------------------------------------------------------------
// Ordering.

/// Each path is ordered no later than every path after it.
pub open spec fn sorted_by_path(s: Seq<String>) -> bool {
    forall|i: int, j: int| 0 <= i < j < s.len() ==> path_order(#[trigger] s[i]@, #[trigger] s[j]@) <= 0
}

fn lex_order_strs(a: &str, b: &str) -> (r: i8)
    ensures
        r == lex_order(a@, b@),
{
    let x = chars_of(a);
    let y = chars_of(b);
    let mut p: usize = 0;
    assert(a@.skip(0) =~= a@);
    assert(b@.skip(0) =~= b@);
    while p < x.len() && p < y.len()
        invariant
            x@ == a@,
            y@ == b@,
            p <= x@.len(),
            p <= y@.len(),
            lex_order(a@, b@) == lex_order(a@.skip(p as int), b@.skip(p as int)),
        decreases x@.len() - p,
    {
        assert(a@.skip(p as int).skip(1) =~= a@.skip(p + 1));
        assert(b@.skip(p as int).skip(1) =~= b@.skip(p + 1));
        assert(a@.skip(p as int)[0] == x@[p as int]);
        assert(b@.skip(p as int)[0] == y@[p as int]);
        if x[p] < y[p] {
            return -1;
        }
        if x[p] > y[p] {
            return 1;
        }
        p = p + 1;
    }
    if p < x.len() {
        1
    } else if p < y.len() {
        -1
    } else {
        0
    }
}

fn sort_name_of(path: &str) -> (r: String)
    ensures
        r@ == sort_name(path@),
{
    match file_name(path) {
        Some(name) => name,
        None => path.to_owned(),
    }
}

/// The catalog order of two paths as -1, 0 or 1.
pub fn path_order_sign(left: &str, right: &str) -> (r: i8)
    ensures
        r == path_order(left@, right@),
{
    let a = sort_name_of(left);
    let b = sort_name_of(right);
    let c = natural_order_chars(&chars_of(a.as_str()), &chars_of(b.as_str()));
    if c != 0 {
        c
    } else {
        lex_order_strs(a.as_str(), b.as_str())
    }
}

/// The catalog order of two paths.
pub fn natural_path_compare(left: &str, right: &str) -> (r: Ordering)
    ensures
        r == ordering_of_sign(path_order(left@, right@)),
{
    let c = path_order_sign(left, right);
    if c < 0 {
        Ordering::Less
    } else if c > 0 {
        Ordering::Greater
    } else {
        Ordering::Equal
    }
}

proof fn lemma_insert_multiset(s: Seq<String>, k: int, x: String)
    requires
        0 <= k <= s.len(),
    ensures
        s.insert(k, x).to_multiset() == s.to_multiset().insert(x),
{
    let t = s.insert(k, x);
    assert(t.remove(k) =~= s);
    assert(t[k] == x);
    assert(t.to_multiset().count(x) > 0);
    assert(t.to_multiset() =~= s.to_multiset().insert(x));
}

/// The paths in catalog order: the same paths, each ordered no later than
/// the next.
pub fn sort_paths(files: &Vec<String>) -> (r: Vec<String>)
    ensures
        r@.to_multiset() == files@.to_multiset(),
        sorted_by_path(r@),
{
    let mut out: Vec<String> = Vec::new();
    let mut i: usize = 0;
    while i < files.len()
        invariant
            i <= files@.len(),
            out@.to_multiset() == files@.take(i as int).to_multiset(),
            sorted_by_path(out@),
        decreases files@.len() - i,
    {
        let x = files[i].clone();
        let mut k = out.len();
        while k > 0 && path_order_sign(out[k - 1].as_str(), x.as_str()) > 0
            invariant
                k <= out@.len(),
                k < out@.len() ==> path_order(out@[k as int]@, x@) > 0,
            decreases k,
        {
            k = k - 1;
        }
        let ghost before = out@;
        proof {
            lemma_insert_multiset(before, k as int, x);
            assert(files@.take(i + 1) =~= files@.take(i as int).push(files@[i as int]));
            if k < before.len() {
                lemma_path_order_antisymmetric(before[k as int]@, x@);
            }
        }
        out.insert(k, x);
        proof {
            assert forall|a: int, b: int| 0 <= a < b < out@.len() implies path_order(
                #[trigger] out@[a]@,
                #[trigger] out@[b]@,
            ) <= 0 by {
                if b < k {
                    assert(out@[a] == before[a] && out@[b] == before[b]);
                } else if b == k {
                    assert(out@[a] == before[a] && out@[b] == x);
                    if a < k - 1 {
                        assert(path_order(before[a]@, before[k - 1]@) <= 0);
                        lemma_path_order_transitive(before[a]@, before[k - 1]@, x@);
                    }
                } else if a < k {
                    assert(out@[a] == before[a] && out@[b] == before[b - 1]);
                    assert(path_order(before[a]@, before[b - 1]@) <= 0);
                } else if a == k {
                    assert(out@[a] == x && out@[b] == before[b - 1]);
                    if b - 1 > k {
                        assert(path_order(before[k as int]@, before[b - 1]@) <= 0);
                        lemma_path_order_transitive(x@, before[k as int]@, before[b - 1]@);
                    }
                } else {
                    assert(out@[a] == before[a - 1] && out@[b] == before[b - 1]);
                    assert(path_order(before[a - 1]@, before[b - 1]@) <= 0);
                }
            }
        }
        i = i + 1;
    }
    assert(files@.take(files@.len() as int) =~= files@);
    out
}

/// The catalog order is determined: two orderings of the same paths that
/// are both sorted agree, as long as no two different paths tie (in one
/// folder, no two files share a name).
#[verifier::spinoff_prover]
pub proof fn lemma_catalog_order_is_unique(s1: Seq<String>, s2: Seq<String>)
    requires
        s1.to_multiset() == s2.to_multiset(),
        sorted_by_path(s1),
        sorted_by_path(s2),
        forall|i: int, j: int|
            0 <= i < s1.len() && 0 <= j < s1.len() && path_order(#[trigger] s1[i]@, #[trigger] s1[j]@) == 0
                ==> s1[i] == s1[j],
    ensures
        s1 == s2,
    decreases s1.len(),
{
    assert(s1.len() == s1.to_multiset().len());
    assert(s2.len() == s2.to_multiset().len());
    if s1.len() == 0 {
        assert(s1 =~= s2);
        return;
    }
    let x = s1[0];
    let y = s2[0];
    assert(s2.to_multiset().count(y) > 0);
    assert(s1.contains(y));
    let j = choose|j: int| 0 <= j < s1.len() && s1[j] == y;
    assert(s1.to_multiset().count(x) > 0);
    assert(s2.contains(x));
    let k = choose|k: int| 0 <= k < s2.len() && s2[k] == x;
    if j > 0 {
        assert(path_order(s1[0]@, s1[j]@) <= 0);
    }
    if k > 0 {
        assert(path_order(s2[0]@, s2[k]@) <= 0);
    }
    lemma_path_order_antisymmetric(x@, y@);
    assert(path_order(s1[0]@, s1[j]@) == 0);
    assert(x == y);
    let r1 = s1.drop_first();
    let r2 = s2.drop_first();
    assert(s1.remove(0) =~= r1);
    assert(s2.remove(0) =~= r2);
    assert(r1.to_multiset() == s1.to_multiset().remove(x));
    assert(r2.to_multiset() == s2.to_multiset().remove(y));
    assert forall|a: int, b: int| 0 <= a < b < r1.len() implies path_order(#[trigger] r1[a]@, #[trigger] r1[b]@)
        <= 0 by {
        assert(r1[a] == s1[a + 1] && r1[b] == s1[b + 1]);
    }
    assert forall|a: int, b: int| 0 <= a < b < r2.len() implies path_order(#[trigger] r2[a]@, #[trigger] r2[b]@)
        <= 0 by {
        assert(r2[a] == s2[a + 1] && r2[b] == s2[b + 1]);
    }
    assert forall|a: int, b: int|
        0 <= a < r1.len() && 0 <= b < r1.len() && path_order(#[trigger] r1[a]@, #[trigger] r1[b]@) == 0 implies r1[a]
        == r1[b] by {
        assert(r1[a] == s1[a + 1] && r1[b] == s1[b + 1]);
    }
    lemma_catalog_order_is_unique(r1, r2);
    assert(s1 =~= seq![x] + r1);
    assert(s2 =~= seq![y] + r2);
}

// ---------------------------------------------------------------------------
// The catalog.

/// The image files of a folder in catalog order, with the opened one.
#[derive(Debug)]
pub struct Catalog {
    pub files: Vec<String>,
    pub index: usize,
}

/// Collects a folder's image files within the enumeration limits.
#[derive(Debug)]
pub struct CatalogBuilder {
    files: Vec<String>,
    visited: usize,
}

impl CatalogBuilder {
    /// The files kept so far.
    pub closed spec fn kept(&self) -> Seq<String> {
        self.files@
    }

    /// The directory entries visited so far.
    pub closed spec fn visited(&self) -> usize {
        self.visited
    }

    pub fn new() -> (b: Self)
        ensures
            b.kept() == Seq::<String>::empty(),
            b.visited() == 0,
    {
        CatalogBuilder { files: Vec::new(), visited: 0 }
    }

    /// Counts one directory entry; the scan stops with a limit error once
    /// more than `MAX_DIRECTORY_ENTRIES` entries were seen.
    pub fn visit_entry(&mut self) -> (r: Result<(), ViewerError>)
        ensures
            final(self).kept() == old(self).kept(),
            match r {
                Ok(()) => old(self).visited() < MAX_DIRECTORY_ENTRIES && final(self).visited() == old(self).visited()
                    + 1,
                Err(e) => old(self).visited() >= MAX_DIRECTORY_ENTRIES && final(self).visited() == old(
                    self,
                ).visited() && e@ == limit_error_view(
                    "directory_entry_limit_exceeded"@,
                    "資料夾項目超過安全列舉上限。"@,
                    "maxEntries"@,
                    MAX_DIRECTORY_ENTRIES,
                ),
            },
    {
        let next = checked_count(
            self.visited,
            MAX_DIRECTORY_ENTRIES,
            "directory_entry_limit_exceeded",
            "資料夾項目超過安全列舉上限。",
            "maxEntries",
        )?;
        self.visited = next;
        Ok(())
    }

    /// Whether an entry's name makes it a candidate image.
    pub fn is_candidate(path: &str) -> (b: bool)
        ensures
            b == (format_of_path(path@) is Some),
    {
        SupportedFormat::from_path(path).is_some()
    }

    /// Keeps a regular (non-link) image file; the scan stops with a limit
    /// error once more than `MAX_CATALOG_FILES` files would be kept.
    pub fn add_file(&mut self, path: String) -> (r: Result<(), ViewerError>)
        ensures
            final(self).visited() == old(self).visited(),
            match r {
                Ok(()) => old(self).kept().len() < MAX_CATALOG_FILES && final(self).kept() == old(self).kept().push(
                    path,
                ),
                Err(e) => old(self).kept().len() >= MAX_CATALOG_FILES && final(self).kept() == old(self).kept()
                    && e@ == limit_error_view(
                    "catalog_file_limit_exceeded"@,
                    "圖片清單超過安全檔案數量上限。"@,
                    "maxFiles"@,
                    MAX_CATALOG_FILES,
                ),
            },
    {
        checked_count(
            self.files.len(),
            MAX_CATALOG_FILES,
            "catalog_file_limit_exceeded",
            "圖片清單超過安全檔案數量上限。",
            "maxFiles",
        )?;
        self.files.push(path);
        Ok(())
    }

    /// Orders the kept files and selects the opened one: the first whose
    /// path equals the target's without regard to case, as Windows compares
    /// paths.
    /// A target that is not among them is refused.
    pub fn finish(self, target: &str) -> (r: Result<Catalog, ViewerError>)
        ensures
            match r {
                Ok(c) => {
                    &&& c.files@.to_multiset() == self.kept().to_multiset()
                    &&& sorted_by_path(c.files@)
                    &&& c.index < c.files@.len()
                    &&& eq_ignore_case(c.files@[c.index as int]@, target@)
                    &&& forall|k: int| 0 <= k < c.index ==> !eq_ignore_case(#[trigger] c.files@[k]@, target@)
                },
                Err(e) => {
                    &&& forall|k: int|
                        0 <= k < self.kept().len() ==> !eq_ignore_case(#[trigger] self.kept()[k]@, target@)
                    &&& e@ == (ErrorView {
                        code: code::INVALID_PATH@,
                        message: "指定圖片不在可讀取的圖片清單中。"@,
                        parameters: Map::empty(),
                    })
                },
            },
    {
        let files = sort_paths(&self.files);
        let mut k: usize = 0;
        while k < files.len()
            invariant
                k <= files@.len(),
                files@.to_multiset() == self.kept().to_multiset(),
                sorted_by_path(files@),
                forall|m: int| 0 <= m < k ==> !eq_ignore_case(#[trigger] files@[m]@, target@),
            decreases files@.len() - k,
        {
            if str_eq_ignore_case(files[k].as_str(), target) {
                return Ok(Catalog { files, index: k });
            }
            k = k + 1;
        }
        proof {
            assert forall|m: int| 0 <= m < self.kept().len() implies !eq_ignore_case(
                #[trigger] self.kept()[m]@,
                target@,
            ) by {
                let x = self.kept()[m];
                assert(self.kept().to_multiset().count(x) > 0);
                assert(files@.to_multiset().count(x) > 0);
                assert(files@.contains(x));
                let j = choose|j: int| 0 <= j < files@.len() && files@[j] == x;
                assert(!eq_ignore_case(files@[j]@, target@));
            }
        }
        Err(ViewerError::invalid_path("指定圖片不在可讀取的圖片清單中。"))
    }
}


// ---------------------------------------------------------------------------
// A folder listing as plain values.

/// One entry of a folder listing, as the caller read it: an entry that could
/// not be read at all, or a path with what its own metadata (links not
/// followed) says. An entry whose metadata could not be read is neither a
/// regular file nor a reparse point.
#[derive(Debug, Clone)]
pub enum ListedEntry {
    Unreadable,
    Entry { path: String, regular_file: bool, reparse_point: bool },
}

/// Whether an entry belongs in the catalog: a regular, non-reparse file with
/// a supported extension.
pub open spec fn qualifies(e: ListedEntry) -> bool {
    &&& e matches ListedEntry::Entry { path, regular_file, reparse_point }
    &&& format_of_path(path@) is Some
    &&& regular_file
    &&& !reparse_point
}

/// The qualifying paths of a listing, in listing order.
pub open spec fn kept_files(entries: Seq<ListedEntry>) -> Seq<String>
    decreases entries.len(),
{
    if entries.len() == 0 {
        Seq::empty()
    } else {
        let rest = kept_files(entries.drop_last());
        if qualifies(entries.last()) {
            rest.push(entries.last()->path)
        } else {
            rest
        }
    }
}

/// The entries a scan visits before the entry limit stops it.
pub open spec fn scanned(entries: Seq<ListedEntry>) -> Seq<ListedEntry> {
    if entries.len() <= MAX_DIRECTORY_ENTRIES {
        entries
    } else {
        entries.take(MAX_DIRECTORY_ENTRIES as int)
    }
}

proof fn lemma_kept_files_step(entries: Seq<ListedEntry>, i: int)
    requires
        0 <= i < entries.len(),
    ensures
        kept_files(entries.take(i + 1)) == (if qualifies(entries[i]) {
            kept_files(entries.take(i)).push(entries[i]->path)
        } else {
            kept_files(entries.take(i))
        }),
{
    assert(entries.take(i + 1).drop_last() =~= entries.take(i));
}

proof fn lemma_kept_files_grow(entries: Seq<ListedEntry>, i: int, j: int)
    requires
        0 <= i <= j <= entries.len(),
    ensures
        kept_files(entries.take(i)).len() <= kept_files(entries.take(j)).len(),
    decreases j - i,
{
    if i < j {
        lemma_kept_files_grow(entries, i, j - 1);
        lemma_kept_files_step(entries, j - 1);
    }
}

/// The catalog of a folder listing with `target` selected. The scan counts
/// every entry against `MAX_DIRECTORY_ENTRIES` and every qualifying file
/// against `MAX_CATALOG_FILES`, and stops at the first limit it passes;
/// otherwise the catalog holds exactly the qualifying files, in catalog
/// order, with the first one equal to the target selected.
pub fn catalog_from_listing(entries: &Vec<ListedEntry>, target: &str) -> (r: Result<Catalog, ViewerError>)
    ensures
        if kept_files(scanned(entries@)).len() > MAX_CATALOG_FILES {
            r matches Err(e) && e@ == limit_error_view(
                "catalog_file_limit_exceeded"@,
                "圖片清單超過安全檔案數量上限。"@,
                "maxFiles"@,
                MAX_CATALOG_FILES,
            )
        } else if entries@.len() > MAX_DIRECTORY_ENTRIES {
            r matches Err(e) && e@ == limit_error_view(
                "directory_entry_limit_exceeded"@,
                "資料夾項目超過安全列舉上限。"@,
                "maxEntries"@,
                MAX_DIRECTORY_ENTRIES,
            )
        } else {
            match r {
                Ok(c) => {
                    &&& c.files@.to_multiset() == kept_files(entries@).to_multiset()
                    &&& sorted_by_path(c.files@)
                    &&& c.index < c.files@.len()
                    &&& eq_ignore_case(c.files@[c.index as int]@, target@)
                    &&& forall|k: int| 0 <= k < c.index ==> !eq_ignore_case(#[trigger] c.files@[k]@, target@)
                },
                Err(e) => {
                    &&& forall|k: int|
                        0 <= k < kept_files(entries@).len() ==> !eq_ignore_case(
                            #[trigger] kept_files(entries@)[k]@,
                            target@,
                        )
                    &&& e@ == (ErrorView {
                        code: code::INVALID_PATH@,
                        message: "指定圖片不在可讀取的圖片清單中。"@,
                        parameters: Map::empty(),
                    })
                },
            }
        },
{
    let mut builder = CatalogBuilder::new();
    let mut i: usize = 0;
    assert(entries@.take(0) =~= Seq::<ListedEntry>::empty());
    while i < entries.len()
        invariant
            i <= entries@.len(),
            i <= MAX_DIRECTORY_ENTRIES,
            builder.visited() == i,
            builder.kept() == kept_files(entries@.take(i as int)),
            builder.kept().len() <= MAX_CATALOG_FILES,
        decreases entries@.len() - i,
    {
        match builder.visit_entry() {
            Ok(()) => {},
            Err(e) => {
                proof {
                    assert(scanned(entries@) =~= entries@.take(i as int));
                }
                return Err(e);
            },
        }
        proof {
            lemma_kept_files_step(entries@, i as int);
        }
        match &entries[i] {
            ListedEntry::Entry { path, regular_file, reparse_point } => {
                if *regular_file && !*reparse_point && CatalogBuilder::is_candidate(path.as_str()) {
                    match builder.add_file(path.clone()) {
                        Ok(()) => {},
                        Err(e) => {
                            proof {
                                let n = if entries@.len() <= MAX_DIRECTORY_ENTRIES {
                                    entries@.len() as int
                                } else {
                                    MAX_DIRECTORY_ENTRIES as int
                                };
                                lemma_kept_files_grow(entries@, i + 1, n);
                                if entries@.len() <= MAX_DIRECTORY_ENTRIES {
                                    assert(entries@.take(n) =~= entries@);
                                }
                            }
                            return Err(e);
                        },
                    }
                }
            },
            ListedEntry::Unreadable => {},
        }
        i = i + 1;
    }
    proof {
        assert(entries@.take(i as int) =~= entries@);
    }
    builder.finish(target)
}

} // verus!
