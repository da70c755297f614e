//! Disk analysis: large files and directory usage below a user directory, and their
//! safe deletion. The directory walk and the file system calls belong to the caller;
//! this module decides what is skipped, keeps the largest files, aggregates directory
//! usage, throttles progress and checks deletions.

use vstd::prelude::*;
use crate::cleaner::{opt_string_view, DeleteResult};
use crate::cleanlog::{known_total, path_file_name, CleanLogEntry};
use crate::delete::{resolved_view, DeleteOutcome};
use crate::paths::{
    is_protected_by_text, lowercase_of, path_has_no_parent, protected_by_text, simple_last_segment,
    surely_has_parent, to_lowercase, EnvVars, EnvView,
};
use crate::text::{
    ascii_lower, chars_of, contains, ends_with, eq_ignore_ascii_case, has_prefix, has_sub,
    has_suffix, push_str, same, slice_copy, starts_with, string_of,
};

verus! {

/// Kind of a large file, inferred from its extension.
#[derive(Clone, Copy, Debug, PartialEq, Eq, Structural)]
pub enum LargeFileKind {
    Video,
    Archive,
    Installer,
    Image,
    Document,
    Other,
}

/// Deletion risk of a large file.
#[derive(Clone, Copy, Debug, PartialEq, Eq, Structural)]
pub enum LargeFileLevel {
    /// User data (documents, videos, archives, ...): selected by default.
    Safe,
    /// Installers and programs, or application data under `AppData`: not selected by
    /// default, deletion asks twice.
    Confirm,
}

/// The text after the last `.` (the whole text when there is none).
pub open spec fn last_segment(s: Seq<char>) -> Seq<char>
    decreases s.len(),
{
    if s.len() == 0 {
        s
    } else if s.last() == '.' {
        Seq::empty()
    } else {
        last_segment(s.drop_last()).push(s.last())
    }
}

/// `x` is one of `opts`.
pub open spec fn one_of(x: Seq<char>, opts: Seq<Seq<char>>) -> bool {
    opts.contains(x)
}

pub open spec fn video_exts() -> Seq<Seq<char>> {
    seq!["mp4"@, "mkv"@, "avi"@, "mov"@, "wmv"@, "flv"@, "webm"@, "ts"@, "m4v"@, "rmvb"@, "mpg"@, "mpeg"@]
}

pub open spec fn archive_exts() -> Seq<Seq<char>> {
    seq!["zip"@, "rar"@, "7z"@, "tar"@, "gz"@, "bz2"@, "xz"@, "iso"@, "cab"@, "wim"@, "tgz"@, "zst"@]
}

pub open spec fn installer_exts() -> Seq<Seq<char>> {
    seq!["exe"@, "msi"@, "msp"@, "appx"@, "msix"@, "apk"@, "dmg"@]
}

pub open spec fn image_exts() -> Seq<Seq<char>> {
    seq!["jpg"@, "jpeg"@, "png"@, "gif"@, "bmp"@, "tiff"@, "raw"@, "cr2"@, "nef"@, "heic"@, "psd"@]
}

pub open spec fn document_exts() -> Seq<Seq<char>> {
    seq!["pdf"@, "doc"@, "docx"@, "xls"@, "xlsx"@, "ppt"@, "pptx"@, "txt"@, "md"@, "epub"@, "csv"@]
}

/// The kind of a file by the extension of its lowercased name.
pub open spec fn kind_spec(name: Seq<char>) -> LargeFileKind {
    let ext = last_segment(lowercase_of(name));
    if one_of(ext, video_exts()) {
        LargeFileKind::Video
    } else if one_of(ext, archive_exts()) {
        LargeFileKind::Archive
    } else if one_of(ext, installer_exts()) {
        LargeFileKind::Installer
    } else if one_of(ext, image_exts()) {
        LargeFileKind::Image
    } else if one_of(ext, document_exts()) {
        LargeFileKind::Document
    } else {
        LargeFileKind::Other
    }
}

/// Law of the file kinds, by the lowercased text after a name's last `.`: `mp4`, `mkv`,
/// `avi`, `mov`, `wmv`, `flv`, `webm`, `ts`, `m4v`, `rmvb`, `mpg`, `mpeg` are videos;
/// `zip`, `rar`, `7z`, `tar`, `gz`, `bz2`, `xz`, `iso`, `cab`, `wim`, `tgz`, `zst` archives;
/// `exe`, `msi`, `msp`, `appx`, `msix`, `apk`, `dmg` installers; `jpg`, `jpeg`, `png`,
/// `gif`, `bmp`, `tiff`, `raw`, `cr2`, `nef`, `heic`, `psd` images; `pdf`, `doc`, `docx`,
/// `xls`, `xlsx`, `ppt`, `pptx`, `txt`, `md`, `epub`, `csv` documents; anything else is
/// other.
pub proof fn law_kind_by_extension(name: Seq<char>)
    ensures
        ({
            let ext = last_segment(lowercase_of(name));
            ext == "mp4"@ || ext == "mkv"@ || ext == "avi"@ || ext == "mov"@ || ext == "wmv"@ || ext == "flv"@ || ext == "webm"@ || ext == "ts"@ || ext == "m4v"@ || ext == "rmvb"@ || ext == "mpg"@ || ext == "mpeg"@
        }) ==> kind_spec(name) == LargeFileKind::Video,
        ({
            let ext = last_segment(lowercase_of(name));
            ext == "zip"@ || ext == "rar"@ || ext == "7z"@ || ext == "tar"@ || ext == "gz"@ || ext == "bz2"@ || ext == "xz"@ || ext == "iso"@ || ext == "cab"@ || ext == "wim"@ || ext == "tgz"@ || ext == "zst"@
        }) ==> kind_spec(name) == LargeFileKind::Archive,
        ({
            let ext = last_segment(lowercase_of(name));
            ext == "exe"@ || ext == "msi"@ || ext == "msp"@ || ext == "appx"@ || ext == "msix"@ || ext == "apk"@ || ext == "dmg"@
        }) ==> kind_spec(name) == LargeFileKind::Installer,
        ({
            let ext = last_segment(lowercase_of(name));
            ext == "jpg"@ || ext == "jpeg"@ || ext == "png"@ || ext == "gif"@ || ext == "bmp"@ || ext == "tiff"@ || ext == "raw"@ || ext == "cr2"@ || ext == "nef"@ || ext == "heic"@ || ext == "psd"@
        }) ==> kind_spec(name) == LargeFileKind::Image,
        ({
            let ext = last_segment(lowercase_of(name));
            ext == "pdf"@ || ext == "doc"@ || ext == "docx"@ || ext == "xls"@ || ext == "xlsx"@ || ext == "ppt"@ || ext == "pptx"@ || ext == "txt"@ || ext == "md"@ || ext == "epub"@ || ext == "csv"@
        }) ==> kind_spec(name) == LargeFileKind::Document,
        !({
            let ext = last_segment(lowercase_of(name));
            ext == "mp4"@ || ext == "mkv"@ || ext == "avi"@ || ext == "mov"@ || ext == "wmv"@ || ext == "flv"@ || ext == "webm"@ || ext == "ts"@ || ext == "m4v"@ || ext == "rmvb"@ || ext == "mpg"@ || ext == "mpeg"@ || ext == "zip"@ || ext == "rar"@ || ext == "7z"@ || ext == "tar"@ || ext == "gz"@ || ext == "bz2"@ || ext == "xz"@ || ext == "iso"@ || ext == "cab"@ || ext == "wim"@ || ext == "tgz"@ || ext == "zst"@ || ext == "exe"@ || ext == "msi"@ || ext == "msp"@ || ext == "appx"@ || ext == "msix"@ || ext == "apk"@ || ext == "dmg"@ || ext == "jpg"@ || ext == "jpeg"@ || ext == "png"@ || ext == "gif"@ || ext == "bmp"@ || ext == "tiff"@ || ext == "raw"@ || ext == "cr2"@ || ext == "nef"@ || ext == "heic"@ || ext == "psd"@ || ext == "pdf"@ || ext == "doc"@ || ext == "docx"@ || ext == "xls"@ || ext == "xlsx"@ || ext == "ppt"@ || ext == "pptx"@ || ext == "txt"@ || ext == "md"@ || ext == "epub"@ || ext == "csv"@
        }) ==> kind_spec(name) == LargeFileKind::Other,
{
    let ext = last_segment(lowercase_of(name));
    reveal_strlit("mp4");
    reveal_strlit("mkv");
    reveal_strlit("avi");
    reveal_strlit("mov");
    reveal_strlit("wmv");
    reveal_strlit("flv");
    reveal_strlit("webm");
    reveal_strlit("ts");
    reveal_strlit("m4v");
    reveal_strlit("rmvb");
    reveal_strlit("mpg");
    reveal_strlit("mpeg");
    reveal_strlit("zip");
    reveal_strlit("rar");
    reveal_strlit("7z");
    reveal_strlit("tar");
    reveal_strlit("gz");
    reveal_strlit("bz2");
    reveal_strlit("xz");
    reveal_strlit("iso");
    reveal_strlit("cab");
    reveal_strlit("wim");
    reveal_strlit("tgz");
    reveal_strlit("zst");
    reveal_strlit("exe");
    reveal_strlit("msi");
    reveal_strlit("msp");
    reveal_strlit("appx");
    reveal_strlit("msix");
    reveal_strlit("apk");
    reveal_strlit("dmg");
    reveal_strlit("jpg");
    reveal_strlit("jpeg");
    reveal_strlit("png");
    reveal_strlit("gif");
    reveal_strlit("bmp");
    reveal_strlit("tiff");
    reveal_strlit("raw");
    reveal_strlit("cr2");
    reveal_strlit("nef");
    reveal_strlit("heic");
    reveal_strlit("psd");
    reveal_strlit("pdf");
    reveal_strlit("doc");
    reveal_strlit("docx");
    reveal_strlit("xls");
    reveal_strlit("xlsx");
    reveal_strlit("ppt");
    reveal_strlit("pptx");
    reveal_strlit("txt");
    reveal_strlit("md");
    reveal_strlit("epub");
    reveal_strlit("csv");
    if ext == "zip"@ || ext == "rar"@ || ext == "7z"@ || ext == "tar"@ || ext == "gz"@ || ext == "bz2"@ || ext == "xz"@ || ext == "iso"@ || ext == "cab"@ || ext == "wim"@ || ext == "tgz"@ || ext == "zst"@ || ext == "exe"@ || ext == "msi"@ || ext == "msp"@ || ext == "appx"@ || ext == "msix"@ || ext == "apk"@ || ext == "dmg"@ || ext == "jpg"@ || ext == "jpeg"@ || ext == "png"@ || ext == "gif"@ || ext == "bmp"@ || ext == "tiff"@ || ext == "raw"@ || ext == "cr2"@ || ext == "nef"@ || ext == "heic"@ || ext == "psd"@ || ext == "pdf"@ || ext == "doc"@ || ext == "docx"@ || ext == "xls"@ || ext == "xlsx"@ || ext == "ppt"@ || ext == "pptx"@ || ext == "txt"@ || ext == "md"@ || ext == "epub"@ || ext == "csv"@ {
        assert forall|i: int| 0 <= i < video_exts().len() implies video_exts()[i] != ext by {
            if i == 0 {} else if i == 1 {} else if i == 2 {} else if i == 3 {} else if i == 4 {} else if i == 5 {} else if i == 6 {} else if i == 7 {} else if i == 8 {} else if i == 9 {} else if i == 10 {} else if i == 11 {}
            let x = video_exts()[i];
            assert(x.len() != ext.len() || x[0] != ext[0] || x[1] != ext[1] || x[x.len() - 1] != ext[ext.len() - 1]);
        }
    }
    if ext == "exe"@ || ext == "msi"@ || ext == "msp"@ || ext == "appx"@ || ext == "msix"@ || ext == "apk"@ || ext == "dmg"@ || ext == "jpg"@ || ext == "jpeg"@ || ext == "png"@ || ext == "gif"@ || ext == "bmp"@ || ext == "tiff"@ || ext == "raw"@ || ext == "cr2"@ || ext == "nef"@ || ext == "heic"@ || ext == "psd"@ || ext == "pdf"@ || ext == "doc"@ || ext == "docx"@ || ext == "xls"@ || ext == "xlsx"@ || ext == "ppt"@ || ext == "pptx"@ || ext == "txt"@ || ext == "md"@ || ext == "epub"@ || ext == "csv"@ {
        assert forall|i: int| 0 <= i < archive_exts().len() implies archive_exts()[i] != ext by {
            if i == 0 {} else if i == 1 {} else if i == 2 {} else if i == 3 {} else if i == 4 {} else if i == 5 {} else if i == 6 {} else if i == 7 {} else if i == 8 {} else if i == 9 {} else if i == 10 {} else if i == 11 {}
            let x = archive_exts()[i];
            assert(x.len() != ext.len() || x[0] != ext[0] || x[1] != ext[1] || x[x.len() - 1] != ext[ext.len() - 1]);
        }
    }
    if ext == "jpg"@ || ext == "jpeg"@ || ext == "png"@ || ext == "gif"@ || ext == "bmp"@ || ext == "tiff"@ || ext == "raw"@ || ext == "cr2"@ || ext == "nef"@ || ext == "heic"@ || ext == "psd"@ || ext == "pdf"@ || ext == "doc"@ || ext == "docx"@ || ext == "xls"@ || ext == "xlsx"@ || ext == "ppt"@ || ext == "pptx"@ || ext == "txt"@ || ext == "md"@ || ext == "epub"@ || ext == "csv"@ {
        assert forall|i: int| 0 <= i < installer_exts().len() implies installer_exts()[i] != ext by {
            if i == 0 {} else if i == 1 {} else if i == 2 {} else if i == 3 {} else if i == 4 {} else if i == 5 {} else if i == 6 {}
            let x = installer_exts()[i];
            assert(x.len() != ext.len() || x[0] != ext[0] || x[1] != ext[1] || x[x.len() - 1] != ext[ext.len() - 1]);
        }
    }
    if ext == "pdf"@ || ext == "doc"@ || ext == "docx"@ || ext == "xls"@ || ext == "xlsx"@ || ext == "ppt"@ || ext == "pptx"@ || ext == "txt"@ || ext == "md"@ || ext == "epub"@ || ext == "csv"@ {
        assert forall|i: int| 0 <= i < image_exts().len() implies image_exts()[i] != ext by {
            if i == 0 {} else if i == 1 {} else if i == 2 {} else if i == 3 {} else if i == 4 {} else if i == 5 {} else if i == 6 {} else if i == 7 {} else if i == 8 {} else if i == 9 {} else if i == 10 {}
            let x = image_exts()[i];
            assert(x.len() != ext.len() || x[0] != ext[0] || x[1] != ext[1] || x[x.len() - 1] != ext[ext.len() - 1]);
        }
    }
}

fn last_segment_exec(s: &[char]) -> (r: Vec<char>)
    ensures
        r@ == last_segment(s@),
{
    let mut i: usize = s.len();
    assert(s@.subrange(0, s@.len() as int) =~= s@);
    assert(s@.subrange(s@.len() as int, s@.len() as int) =~= Seq::<char>::empty());
    assert(s@ + Seq::<char>::empty() =~= s@);
    while i > 0 && s[i - 1] != '.'
        invariant
            i <= s@.len(),
            last_segment(s@) == last_segment(s@.subrange(0, i as int)) + s@.subrange(
                i as int,
                s@.len() as int,
            ),
        decreases i,
    {
        let ghost pre = s@.subrange(0, i as int);
        assert(pre.drop_last() =~= s@.subrange(0, i - 1));
        assert(s@.subrange(i - 1, s@.len() as int) =~= seq![s@[i - 1]] + s@.subrange(
            i as int,
            s@.len() as int,
        ));
        assert(last_segment(pre) == last_segment(pre.drop_last()).push(pre.last()));
        assert(last_segment(pre.drop_last()).push(pre.last()) + s@.subrange(i as int, s@.len() as int)
            =~= last_segment(s@.subrange(0, i - 1)) + s@.subrange(i - 1, s@.len() as int));
        i = i - 1;
    }
    proof {
        let pre = s@.subrange(0, i as int);
        if i > 0 {
            assert(pre.last() == '.');
        }
        assert(last_segment(pre) =~= Seq::<char>::empty());
    }
    slice_copy(s, i, s.len())
}

fn in_list(x: &[char], opts: &[&str]) -> (b: bool)
    ensures
        b == exists|i: int| 0 <= i < opts@.len() && opts@[i]@ == x@,
{
    let mut i: usize = 0;
    while i < opts.len()
        invariant
            i <= opts@.len(),
            forall|j: int| 0 <= j < i ==> opts@[j]@ != x@,
        decreases opts@.len() - i,
    {
        if same(&chars_of(opts[i]), x) {
            return true;
        }
        i = i + 1;
    }
    false
}

impl LargeFileKind {
    /// The kind of a file by its (case-insensitive) extension.
    pub fn from_name(name: &str) -> (k: Self)
        ensures
            k == kind_spec(name@),
    {
        let lower = to_lowercase(&chars_of(name));
        let ext = last_segment_exec(&lower);
        let videos = ["mp4", "mkv", "avi", "mov", "wmv", "flv", "webm", "ts", "m4v", "rmvb", "mpg", "mpeg"];
        let archives = ["zip", "rar", "7z", "tar", "gz", "bz2", "xz", "iso", "cab", "wim", "tgz", "zst"];
        let installers = ["exe", "msi", "msp", "appx", "msix", "apk", "dmg"];
        let images = ["jpg", "jpeg", "png", "gif", "bmp", "tiff", "raw", "cr2", "nef", "heic", "psd"];
        let documents = ["pdf", "doc", "docx", "xls", "xlsx", "ppt", "pptx", "txt", "md", "epub", "csv"];
        proof {
            assert(videos@.map_values(|s: &str| s@) =~= video_exts());
            assert(archives@.map_values(|s: &str| s@) =~= archive_exts());
            assert(installers@.map_values(|s: &str| s@) =~= installer_exts());
            assert(images@.map_values(|s: &str| s@) =~= image_exts());
            assert(documents@.map_values(|s: &str| s@) =~= document_exts());
            lemma_list_contains(videos@, ext@);
            lemma_list_contains(archives@, ext@);
            lemma_list_contains(installers@, ext@);
            lemma_list_contains(images@, ext@);
            lemma_list_contains(documents@, ext@);
        }
        if in_list(&ext, &videos) {
            LargeFileKind::Video
        } else if in_list(&ext, &archives) {
            LargeFileKind::Archive
        } else if in_list(&ext, &installers) {
            LargeFileKind::Installer
        } else if in_list(&ext, &images) {
            LargeFileKind::Image
        } else if in_list(&ext, &documents) {
            LargeFileKind::Document
        } else {
            LargeFileKind::Other
        }
    }
}

proof fn lemma_list_contains(opts: Seq<&str>, x: Seq<char>)
    ensures
        (exists|i: int| 0 <= i < opts.len() && opts[i]@ == x) <==> opts.map_values(
            |s: &str| s@,
        ).contains(x),
{
    let m = opts.map_values(|s: &str| s@);
    if exists|i: int| 0 <= i < opts.len() && opts[i]@ == x {
        let i = choose|i: int| 0 <= i < opts.len() && opts[i]@ == x;
        assert(m[i] == x);
    }
    if m.contains(x) {
        let i = choose|i: int| 0 <= i < m.len() && m[i] == x;
        assert(opts[i]@ == x);
    }
}

/// Installers are risky; so is anything under an `\AppData\` directory
/// (case-insensitive); everything else is user data.
pub open spec fn risk_spec(path: Seq<char>, kind: LargeFileKind) -> LargeFileLevel {
    if kind == LargeFileKind::Installer || contains(lowercase_of(path), "\\appdata\\"@) {
        LargeFileLevel::Confirm
    } else {
        LargeFileLevel::Safe
    }
}

/// The deletion risk of a large file.
pub fn risk_level(path: &str, kind: LargeFileKind) -> (r: LargeFileLevel)
    ensures
        r == risk_spec(path@, kind),
{
    if kind == LargeFileKind::Installer {
        return LargeFileLevel::Confirm;
    }
    let lower = to_lowercase(&chars_of(path));
    if has_sub(&lower, &chars_of("\\appdata\\")) {
        LargeFileLevel::Confirm
    } else {
        LargeFileLevel::Safe
    }
}

} // verus!

verus! {

/// A large file found by the scan.
#[derive(Clone, Debug)]
pub struct LargeFile {
    pub path: String,
    pub size_bytes: u64,
    pub modified_secs: i64,
    pub kind: LargeFileKind,
    /// Deletion risk (decides default selection and double confirmation).
    pub level: LargeFileLevel,
}

/// The mathematical view of a large file.
pub struct FileView {
    pub path: Seq<char>,
    pub size: u64,
    pub modified: i64,
    pub kind: LargeFileKind,
    pub level: LargeFileLevel,
}

pub open spec fn file_view(f: LargeFile) -> FileView {
    FileView {
        path: f.path@,
        size: f.size_bytes,
        modified: f.modified_secs,
        kind: f.kind,
        level: f.level,
    }
}

pub open spec fn files_view(fs: Seq<LargeFile>) -> Seq<FileView> {
    fs.map_values(|f: LargeFile| file_view(f))
}

/// Lexicographic order of character sequences (by code point, as `String` orders).
pub open spec fn seq_lt(a: Seq<char>, b: Seq<char>) -> bool
    decreases a.len(),
{
    if a.len() == 0 {
        b.len() > 0
    } else if b.len() == 0 {
        false
    } else if a[0] != b[0] {
        a[0] < b[0]
    } else {
        seq_lt(a.drop_first(), b.drop_first())
    }
}

/// Files are ordered by size, then by path.
pub open spec fn key_lt(a: FileView, b: FileView) -> bool {
    a.size < b.size || (a.size == b.size && seq_lt(a.path, b.path))
}

/// `a` is not larger than `b` in that order.
pub open spec fn key_le(a: FileView, b: FileView) -> bool {
    !key_lt(b, a)
}

pub proof fn lemma_seq_lt_irreflexive(a: Seq<char>)
    ensures
        !seq_lt(a, a),
    decreases a.len(),
{
    if a.len() > 0 {
        lemma_seq_lt_irreflexive(a.drop_first());
    }
}

pub proof fn lemma_seq_lt_transitive(a: Seq<char>, b: Seq<char>, c: Seq<char>)
    requires
        seq_lt(a, b),
        seq_lt(b, c),
    ensures
        seq_lt(a, c),
    decreases a.len(),
{
    if a.len() > 0 && b.len() > 0 && c.len() > 0 && a[0] == b[0] && b[0] == c[0] {
        lemma_seq_lt_transitive(a.drop_first(), b.drop_first(), c.drop_first());
    }
}

pub proof fn lemma_seq_lt_connected(a: Seq<char>, b: Seq<char>)
    ensures
        a == b || seq_lt(a, b) || seq_lt(b, a),
    decreases a.len(),
{
    if a.len() > 0 && b.len() > 0 && a[0] == b[0] {
        lemma_seq_lt_connected(a.drop_first(), b.drop_first());
        if a.drop_first() == b.drop_first() {
            assert(a =~= seq![a[0]] + a.drop_first());
            assert(b =~= seq![b[0]] + b.drop_first());
        }
    }
}

pub proof fn lemma_key_lt_transitive(a: FileView, b: FileView, c: FileView)
    requires
        key_lt(a, b),
        key_lt(b, c),
    ensures
        key_lt(a, c),
{
    if a.size == b.size && b.size == c.size {
        lemma_seq_lt_transitive(a.path, b.path, c.path);
    }
}

pub proof fn lemma_key_le_transitive(a: FileView, b: FileView, c: FileView)
    requires
        key_le(a, b),
        key_le(b, c),
    ensures
        key_le(a, c),
{
    if key_lt(c, a) {
        // c < a: compare b with a and c
        if a.size == b.size && b.size == c.size {
            lemma_seq_lt_connected(b.path, c.path);
            lemma_seq_lt_connected(a.path, b.path);
            if seq_lt(b.path, c.path) {
                lemma_seq_lt_transitive(b.path, c.path, a.path);
            } else if b.path == c.path {
            } else {
            }
        }
    }
}

pub proof fn lemma_key_lt_asymmetric(a: FileView, b: FileView)
    requires
        key_lt(a, b),
    ensures
        !key_lt(b, a),
{
    if a.size == b.size && seq_lt(b.path, a.path) {
        lemma_seq_lt_transitive(a.path, b.path, a.path);
        lemma_seq_lt_irreflexive(a.path);
    }
}

/// Lexicographic comparison of two strings.
pub fn path_lt(a: &str, b: &str) -> (r: bool)
    ensures
        r == seq_lt(a@, b@),
{
    let x = chars_of(a);
    let y = chars_of(b);
    let mut i: usize = 0;
    assert(x@.subrange(0, x@.len() as int) =~= x@);
    assert(y@.subrange(0, y@.len() as int) =~= y@);
    loop
        invariant
            x@ == a@,
            y@ == b@,
            i <= x@.len(),
            i <= y@.len(),
            seq_lt(a@, b@) == seq_lt(x@.subrange(i as int, x@.len() as int), y@.subrange(i as int, y@.len() as int)),
        decreases x@.len() - i,
    {
        let ghost xs = x@.subrange(i as int, x@.len() as int);
        let ghost ys = y@.subrange(i as int, y@.len() as int);
        if i == x.len() {
            return i < y.len();
        }
        if i == y.len() {
            return false;
        }
        assert(xs[0] == x@[i as int] && ys[0] == y@[i as int]);
        if x[i] != y[i] {
            return x[i] < y[i];
        }
        assert(xs.drop_first() =~= x@.subrange(i + 1, x@.len() as int));
        assert(ys.drop_first() =~= y@.subrange(i + 1, y@.len() as int));
        i = i + 1;
    }
}

/// Whether `a` comes before `b` (smaller size, or same size and smaller path).
pub fn key_less(a: &LargeFile, b: &LargeFile) -> (r: bool)
    ensures
        r == key_lt(file_view(*a), file_view(*b)),
{
    a.size_bytes < b.size_bytes || (a.size_bytes == b.size_bytes && path_lt(
        a.path.as_str(),
        b.path.as_str(),
    ))
}

/// The kept and the dropped files of a `TopLargest`.
pub struct TopView {
    pub cap: usize,
    pub kept: Seq<FileView>,
    pub dropped: Seq<FileView>,
}

/// What a `TopLargest` guarantees at every step: at most `cap` files are kept, none is
/// dropped while there is room, and every dropped file is no larger than every kept one
/// (by size, then path). So the kept files are the `cap` largest of all pushed so far.
pub open spec fn top_wf(v: TopView) -> bool {
    &&& v.kept.len() <= v.cap
    &&& (v.kept.len() < v.cap ==> v.dropped.len() == 0)
    &&& forall|d: int, k: int|
        0 <= d < v.dropped.len() && 0 <= k < v.kept.len() ==> key_le(
            #[trigger] v.dropped[d],
            #[trigger] v.kept[k],
        )
}

/// The largest `cap` files seen so far.
pub struct TopLargest {
    cap: usize,
    kept: Vec<LargeFile>,
    dropped: Ghost<Seq<FileView>>,
}

impl View for TopLargest {
    type V = TopView;

    closed spec fn view(&self) -> TopView {
        TopView { cap: self.cap, kept: files_view(self.kept@), dropped: self.dropped@ }
    }
}

fn index_of_min(v: &Vec<LargeFile>) -> (m: usize)
    requires
        v@.len() > 0,
    ensures
        m < v@.len(),
        forall|j: int| 0 <= j < v@.len() ==> key_le(file_view(v@[m as int]), #[trigger] file_view(v@[j])),
{
    let mut best: usize = 0;
    let mut i: usize = 1;
    proof {
        lemma_seq_lt_irreflexive(v@[0].path@);
    }
    while i < v.len()
        invariant
            1 <= i <= v@.len(),
            best < i,
            forall|j: int| 0 <= j < i ==> key_le(file_view(v@[best as int]), #[trigger] file_view(v@[j])),
        decreases v@.len() - i,
    {
        if key_less(&v[i], &v[best]) {
            proof {
                assert forall|j: int| 0 <= j < i + 1 implies key_le(
                    file_view(v@[i as int]),
                    #[trigger] file_view(v@[j]),
                ) by {
                    if j < i && key_lt(file_view(v@[j]), file_view(v@[i as int])) {
                        lemma_key_lt_transitive(
                            file_view(v@[j]),
                            file_view(v@[i as int]),
                            file_view(v@[best as int]),
                        );
                    }
                    if j == i {
                        lemma_seq_lt_irreflexive(v@[i as int].path@);
                    }
                }
            }
            best = i;
        }
        i = i + 1;
    }
    best
}

/// Listing order of the result: larger files first, files of equal size by path.
pub open spec fn listed_before(a: FileView, b: FileView) -> bool {
    a.size > b.size || (a.size == b.size && seq_lt(a.path, b.path))
}

/// `a` may be listed before `b`.
pub open spec fn listed_le(a: FileView, b: FileView) -> bool {
    !listed_before(b, a)
}

proof fn lemma_listed_before_transitive(a: FileView, b: FileView, c: FileView)
    requires
        listed_before(a, b),
        listed_before(b, c),
    ensures
        listed_before(a, c),
{
    if a.size == b.size && b.size == c.size {
        lemma_seq_lt_transitive(a.path, b.path, c.path);
    }
}

fn listed_first(a: &LargeFile, b: &LargeFile) -> (r: bool)
    ensures
        r == listed_before(file_view(*a), file_view(*b)),
{
    a.size_bytes > b.size_bytes || (a.size_bytes == b.size_bytes && path_lt(
        a.path.as_str(),
        b.path.as_str(),
    ))
}

/// The position of the file to list first.
fn index_of_first(v: &Vec<LargeFile>) -> (m: usize)
    requires
        v@.len() > 0,
    ensures
        m < v@.len(),
        forall|j: int| 0 <= j < v@.len() ==> listed_le(file_view(v@[m as int]), #[trigger] file_view(v@[j])),
{
    let mut best: usize = 0;
    let mut i: usize = 1;
    proof {
        lemma_seq_lt_irreflexive(v@[0].path@);
    }
    while i < v.len()
        invariant
            1 <= i <= v@.len(),
            best < i,
            forall|j: int| 0 <= j < i ==> listed_le(file_view(v@[best as int]), #[trigger] file_view(v@[j])),
        decreases v@.len() - i,
    {
        if listed_first(&v[i], &v[best]) {
            proof {
                assert forall|j: int| 0 <= j < i + 1 implies listed_le(
                    file_view(v@[i as int]),
                    #[trigger] file_view(v@[j]),
                ) by {
                    if j < i && listed_before(file_view(v@[j]), file_view(v@[i as int])) {
                        lemma_listed_before_transitive(
                            file_view(v@[j]),
                            file_view(v@[i as int]),
                            file_view(v@[best as int]),
                        );
                    }
                    if j == i {
                        lemma_seq_lt_irreflexive(v@[i as int].path@);
                    }
                }
            }
            best = i;
        }
        i = i + 1;
    }
    best
}

impl TopLargest {
    /// Keeps at most `cap` files.
    pub fn new(cap: usize) -> (t: Self)
        ensures
            t@.cap == cap,
            t@.kept.len() == 0,
            t@.dropped.len() == 0,
            top_wf(t@),
    {
        TopLargest { cap, kept: Vec::new(), dropped: Ghost(Seq::empty()) }
    }

    /// Offers a file. With room left it is kept; when full it replaces the smallest kept
    /// file if it is strictly larger (by size, then path), else it is dropped. With
    /// `cap == 0` every file is dropped. No file is lost: the kept and dropped files
    /// together are exactly the files pushed so far.
    pub fn push(&mut self, file: LargeFile)
        requires
            top_wf(old(self)@),
        ensures
            top_wf(final(self)@),
            final(self)@.cap == old(self)@.cap,
            (final(self)@.kept + final(self)@.dropped).to_multiset() == (old(self)@.kept
                + old(self)@.dropped).to_multiset().insert(file_view(file)),
            old(self)@.kept.len() < old(self)@.cap ==> final(self)@.kept == old(self)@.kept.push(
                file_view(file),
            ),
    {
        broadcast use vstd::seq_lib::group_to_multiset_ensures;
        broadcast use vstd::multiset::group_multiset_axioms;

        let ghost old_kept = self@.kept;
        let ghost old_dropped = self@.dropped;
        let ghost fv = file_view(file);
        proof {
            vstd::seq_lib::lemma_multiset_commutative(old_kept, old_dropped);
        }
        if self.cap == 0 {
            proof {
                let nd = old_dropped.push(fv);
                self.dropped@ = nd;
                vstd::seq_lib::lemma_multiset_commutative(old_kept, nd);
                assert((old_kept + nd).to_multiset() =~= (old_kept + old_dropped).to_multiset().insert(fv));
            }
            return;
        }
        if self.kept.len() == self.cap {
            let m = index_of_min(&self.kept);
            let ghost mv = file_view(self.kept@[m as int]);
            if !key_less(&self.kept[m], &file) {
                proof {
                    let nd = old_dropped.push(fv);
                    assert forall|d: int, k: int|
                        0 <= d < nd.len() && 0 <= k < old_kept.len() implies key_le(
                            #[trigger] nd[d],
                            #[trigger] old_kept[k],
                        ) by {
                        if d == old_dropped.len() {
                            assert(old_kept[k] == file_view(self.kept@[k]));
                            lemma_key_le_transitive(fv, mv, old_kept[k]);
                        } else {
                            assert(nd[d] == old_dropped[d]);
                        }
                    }
                    self.dropped@ = nd;
                    vstd::seq_lib::lemma_multiset_commutative(old_kept, nd);
                    assert((old_kept + nd).to_multiset() =~= (old_kept + old_dropped).to_multiset().insert(fv));
                }
                return;
            }
            let ghost before = self.kept@;
            let _removed = self.kept.remove(m);
            let ghost after_remove = self@.kept;
            assert(after_remove =~= old_kept.remove(m as int));
            self.kept.push(file);
            proof {
                let nk = self@.kept;
                assert(nk =~= after_remove.push(fv));
                let nd = old_dropped.push(mv);
                self.dropped@ = nd;
                assert(mv == old_kept[m as int]);
                lemma_key_lt_asymmetric(mv, fv);
                assert forall|d: int, k: int|
                    0 <= d < nd.len() && 0 <= k < nk.len() implies key_le(
                        #[trigger] nd[d],
                        #[trigger] nk[k],
                    ) by {
                    if k == nk.len() - 1 {
                        assert(nk[k] == fv);
                        if d < old_dropped.len() {
                            assert(nd[d] == old_dropped[d]);
                            assert(key_le(old_dropped[d], old_kept[m as int]));
                            lemma_key_le_transitive(nd[d], mv, fv);
                        }
                    } else {
                        let kk = if k < m { k } else { k + 1 };
                        assert(nk[k] == old_kept[kk]);
                        assert(old_kept[kk] == file_view(before[kk]));
                        if d == old_dropped.len() {
                            assert(nd[d] == mv);
                        } else {
                            assert(nd[d] == old_dropped[d]);
                        }
                    }
                }
                vstd::seq_lib::lemma_multiset_commutative(nk, nd);
                assert(old_kept.to_multiset().count(mv) > 0);
                assert((nk + nd).to_multiset() =~= (old_kept + old_dropped).to_multiset().insert(fv));
            }
            return;
        }
        self.kept.push(file);
        proof {
            let nk = self@.kept;
            assert(nk =~= old_kept.push(fv));
            assert(old_dropped.len() == 0);
            vstd::seq_lib::lemma_multiset_commutative(nk, old_dropped);
            assert((nk + old_dropped).to_multiset() =~= (old_kept + old_dropped).to_multiset().insert(fv));
        }
    }
}

/// Law: whatever order the files were pushed in, a `TopLargest` keeps `min(cap, n)` of
/// the `n` files pushed, and every pushed file left out (counted with multiplicity) is no
/// larger than any kept one by size, then path. So the kept files, which
/// `into_sorted_desc` lists largest first, are the greatest of everything pushed. The
/// requirements are what `new` establishes and every `push` keeps.
pub proof fn law_top_keeps_greatest(v: TopView, pushed: Seq<FileView>)
    requires
        top_wf(v),
        (v.kept + v.dropped).to_multiset() == pushed.to_multiset(),
    ensures
        v.kept.len() == (if pushed.len() < v.cap { pushed.len() } else { v.cap as nat }),
        v.kept.to_multiset().subset_of(pushed.to_multiset()),
        forall|x: FileView, k: int|
            0 <= k < v.kept.len() && pushed.to_multiset().count(x) > v.kept.to_multiset().count(x)
                ==> #[trigger] key_le(x, v.kept[k]),
{
    broadcast use vstd::seq_lib::group_to_multiset_ensures;
    broadcast use vstd::multiset::group_multiset_axioms;

    vstd::seq_lib::lemma_multiset_commutative(v.kept, v.dropped);
    assert(pushed.len() == v.kept.len() + v.dropped.len()) by {
        vstd::seq_lib::to_multiset_len(pushed);
        vstd::seq_lib::to_multiset_len(v.kept + v.dropped);
        assert((v.kept + v.dropped).len() == v.kept.len() + v.dropped.len());
    }
    assert forall|x: FileView, k: int|
        0 <= k < v.kept.len() && pushed.to_multiset().count(x) > v.kept.to_multiset().count(x)
            implies #[trigger] key_le(x, v.kept[k]) by {
        assert(v.dropped.to_multiset().count(x) > 0);
        assert(v.dropped.contains(x));
        let d = choose|d: int| 0 <= d < v.dropped.len() && v.dropped[d] == x;
        assert(key_le(v.dropped[d], v.kept[k]));
    }
}

impl TopLargest {
    /// The kept files, largest first (same size: by path). They are exactly the kept
    /// files, rearranged.
    pub fn into_sorted_desc(self) -> (r: Vec<LargeFile>)
        ensures
            files_view(r@).to_multiset() == self@.kept.to_multiset(),
            forall|i: int, j: int|
                0 <= i < j < r@.len() ==> listed_le(
                    #[trigger] file_view(r@[i]),
                    #[trigger] file_view(r@[j]),
                ),
    {
        broadcast use vstd::seq_lib::group_to_multiset_ensures;
        broadcast use vstd::multiset::group_multiset_axioms;

        let ghost all = self@.kept;
        let mut rest = self.kept;
        let mut out: Vec<LargeFile> = Vec::new();
        proof {
            vstd::seq_lib::lemma_multiset_commutative(files_view(out@), files_view(rest@));
            assert(files_view(out@) + files_view(rest@) =~= all);
        }
        while rest.len() > 0
            invariant
                (files_view(out@) + files_view(rest@)).to_multiset() == all.to_multiset(),
                forall|i: int, j: int|
                    0 <= i < j < out@.len() ==> listed_le(
                        #[trigger] file_view(out@[i]),
                        #[trigger] file_view(out@[j]),
                    ),
                forall|i: int, j: int|
                    0 <= i < out@.len() && 0 <= j < rest@.len() ==> listed_le(
                        #[trigger] file_view(out@[i]),
                        #[trigger] file_view(rest@[j]),
                    ),
            decreases rest@.len(),
        {
            let m = index_of_first(&rest);
            let ghost before_rest = rest@;
            let ghost before_out = out@;
            let top = rest.remove(m);
            out.push(top);
            proof {
                broadcast use vstd::seq_lib::group_to_multiset_ensures;
                broadcast use vstd::multiset::group_multiset_axioms;

                let mv = file_view(before_rest[m as int]);
                assert(files_view(rest@) =~= files_view(before_rest).remove(m as int));
                assert(files_view(out@) =~= files_view(before_out).push(mv));
                vstd::seq_lib::lemma_multiset_commutative(files_view(out@), files_view(rest@));
                vstd::seq_lib::lemma_multiset_commutative(files_view(before_out), files_view(before_rest));
                assert(files_view(before_rest)[m as int] == mv);
                assert(files_view(before_rest).contains(mv));
                assert(files_view(before_rest).to_multiset().count(mv) > 0);
                assert(files_view(before_rest).remove(m as int).to_multiset() == files_view(before_rest).to_multiset().remove(mv));
                assert(files_view(before_out).push(mv).to_multiset() == files_view(before_out).to_multiset().insert(mv));
                assert((files_view(out@) + files_view(rest@)).to_multiset() =~= (files_view(before_out)
                    + files_view(before_rest)).to_multiset());
                assert forall|i: int, j: int|
                    0 <= i < j < out@.len() implies listed_le(
                        #[trigger] file_view(out@[i]),
                        #[trigger] file_view(out@[j]),
                    ) by {
                    if j == out@.len() - 1 {
                        assert(out@[i] == before_out[i]);
                        assert(file_view(out@[j]) == mv);
                    } else {
                        assert(out@[i] == before_out[i]);
                        assert(out@[j] == before_out[j]);
                    }
                }
                assert forall|i: int, j: int|
                    0 <= i < out@.len() && 0 <= j < rest@.len() implies listed_le(
                        #[trigger] file_view(out@[i]),
                        #[trigger] file_view(rest@[j]),
                    ) by {
                    let jj = if j < m { j } else { j + 1 };
                    assert(rest@[j] == before_rest[jj]);
                    if i == out@.len() - 1 {
                        assert(file_view(out@[i]) == mv);
                    } else {
                        assert(out@[i] == before_out[i]);
                    }
                }
            }
        }
        proof {
            assert(files_view(rest@) =~= Seq::<FileView>::empty());
            assert(files_view(out@) + files_view(rest@) =~= files_view(out@));
        }
        out
    }

    /// The number of kept files.
    pub fn len(&self) -> (n: usize)
        ensures
            n == self@.kept.len(),
    {
        self.kept.len()
    }
}

} // verus!

verus! {

/// Disk usage of one directory (its own files only).
#[derive(Clone, Debug)]
pub struct DirUsage {
    pub path: String,
    pub size_bytes: u64,
    pub file_count: u64,
}

/// Progress events of a disk analysis.
#[derive(Clone, Debug)]
pub enum DiskEvent {
    Progress { scanned: u64, current: String },
    /// The final large-file list, largest first.
    LargeFiles { files: Vec<LargeFile> },
    /// The directory usage result, largest first.
    DirUsage { dirs: Vec<DirUsage> },
    Done,
    Error(String),
}

/// The events that close a disk scan of `scanned` files: the exact final progress count,
/// then the large-file list when it is not empty (the list the scan returns), then the
/// directory usage when the scan has one, then `Done`.
pub fn disk_closing_events(scanned: u64, files: Vec<LargeFile>, dirs: Option<Vec<DirUsage>>) -> (r: Vec<DiskEvent>)
    ensures
        r@.len() == 2 + (if files@.len() > 0 { 1int } else { 0int }) + (if dirs is Some { 1int } else { 0int }),
        r@[0] matches DiskEvent::Progress { scanned: n, current: c } && n == scanned && c@.len() == 0,
        files@.len() > 0 ==> (r@[1] matches DiskEvent::LargeFiles { files: f } && f@ == files@),
        dirs matches Some(d) ==> (r@[r@.len() - 2] matches DiskEvent::DirUsage { dirs: x } && x@ == d@),
        r@[r@.len() - 1] is Done,
{
    let mut r: Vec<DiskEvent> = Vec::new();
    r.push(DiskEvent::Progress { scanned, current: String::new() });
    if files.len() > 0 {
        r.push(DiskEvent::LargeFiles { files });
    }
    match dirs {
        Some(d) => r.push(DiskEvent::DirUsage { dirs: d }),
        None => {},
    }
    r.push(DiskEvent::Done);
    r
}

pub open spec fn usage_view(d: DirUsage) -> (Seq<char>, u64, u64) {
    (d.path@, d.size_bytes, d.file_count)
}

pub open spec fn usages_view(ds: Seq<DirUsage>) -> Seq<(Seq<char>, u64, u64)> {
    ds.map_values(|d: DirUsage| usage_view(d))
}

/// Directory names never walked into.
pub open spec fn skip_dirs() -> Seq<Seq<char>> {
    seq!["node_modules"@, ".git"@, "__pycache__"@, ".svn"@, "$RECYCLE.BIN"@]
}

/// File names of registry hives and the like, never listed nor deleted (compared
/// ignoring ASCII case).
pub open spec fn system_files() -> Seq<Seq<char>> {
    seq!["ntuser.dat"@, "ntuser.dat.log1"@, "ntuser.dat.log2"@, "usrclass.dat"@, "ntuser.ini"@]
}

/// Whether a file name is one of the system files (ignoring ASCII case).
pub open spec fn is_system_file_spec(name: Seq<char>) -> bool {
    exists|i: int|
        0 <= i < system_files().len() && ascii_lower(name) == ascii_lower(#[trigger] system_files()[i])
}

/// Whether a file name is one of the system files.
pub fn is_system_file(name: &str) -> (b: bool)
    ensures
        b == is_system_file_spec(name@),
{
    let n = chars_of(name);
    let list = ["ntuser.dat", "ntuser.dat.log1", "ntuser.dat.log2", "usrclass.dat", "ntuser.ini"];
    assert(list@.map_values(|s: &str| s@) =~= system_files());
    let mut i: usize = 0;
    while i < list.len()
        invariant
            i <= list@.len(),
            n@ == name@,
            list@.map_values(|s: &str| s@) == system_files(),
            forall|j: int| 0 <= j < i ==> ascii_lower(name@) != ascii_lower(#[trigger] system_files()[j]),
        decreases list@.len() - i,
    {
        assert(system_files()[i as int] == list@[i as int]@);
        if eq_ignore_ascii_case(&n, &chars_of(list[i])) {
            return true;
        }
        i = i + 1;
    }
    false
}

/// Whether the walk of a user directory skips child `name` of directory `parent`: the
/// skipped directory names, and `Temp` (any case) right under `...AppData\Local` (that
/// area belongs to the cleaner).
pub open spec fn skip_child_spec(parent: Seq<char>, name: Seq<char>) -> bool {
    skip_dirs().contains(name) || (ends_with(lowercase_of(parent), "appdata\\local"@)
        && ascii_lower(name) == ascii_lower("temp"@))
}

fn in_skip_dirs(name: &[char]) -> (b: bool)
    ensures
        b == skip_dirs().contains(name@),
{
    let list = ["node_modules", ".git", "__pycache__", ".svn", "$RECYCLE.BIN"];
    assert(list@.map_values(|s: &str| s@) =~= skip_dirs());
    proof {
        lemma_list_contains(list@, name@);
    }
    in_list(name, &list)
}

/// Whether the walk of a user directory skips a child entry.
pub fn skip_child(parent: &str, name: &str) -> (b: bool)
    ensures
        b == skip_child_spec(parent@, name@),
{
    let n = chars_of(name);
    if in_skip_dirs(&n) {
        return true;
    }
    let lp = to_lowercase(&chars_of(parent));
    has_suffix(&lp, &chars_of("appdata\\local")) && eq_ignore_ascii_case(&n, &chars_of("temp"))
}

/// Whether the directory usage walk skips a child entry (the skipped directory names).
pub fn skip_usage_child(name: &str) -> (b: bool)
    ensures
        b == skip_dirs().contains(name@),
{
    in_skip_dirs(&chars_of(name))
}

/// A file at walk depth `depth` (the root's children are at depth 1) counts toward the
/// usage of its directory when that directory is less than `dir_depth` levels deep.
pub fn counts_toward_usage(depth: usize, dir_depth: usize) -> (b: bool)
    ensures
        b == ((if depth >= 1 { depth - 1 } else { 0 }) < dir_depth),
{
    let parent_depth: usize = if depth >= 1 { depth - 1 } else { 0 };
    parent_depth < dir_depth
}

/// Throttling of progress events: an event goes out when at least 200 more files were
/// walked since the last one (never for 0, never twice for one count).
pub struct ProgressGate {
    last_sent: u64,
}

impl ProgressGate {
    pub fn new() -> (g: Self)
        ensures
            g.last() == 0,
    {
        ProgressGate { last_sent: 0 }
    }

    pub closed spec fn last(self) -> u64 {
        self.last_sent
    }

    /// Whether to report `scanned` files (counts only grow).
    pub fn should_send(&mut self, scanned: u64) -> (b: bool)
        requires
            scanned >= old(self).last(),
        ensures
            b == (scanned != 0 && scanned != old(self).last() && scanned - old(self).last() >= 200),
            b ==> final(self).last() == scanned,
            !b ==> final(self).last() == old(self).last(),
    {
        if scanned == 0 || scanned == self.last_sent {
            return false;
        }
        if scanned - self.last_sent >= 200 {
            self.last_sent = scanned;
            true
        } else {
            false
        }
    }
}

/// Whether some entry is for directory `dir`.
pub open spec fn has_dir(u: Seq<(Seq<char>, u64, u64)>, dir: Seq<char>) -> bool {
    exists|i: int| 0 <= i < u.len() && u[i].0 == dir
}

/// No directory has two entries.
pub open spec fn dirs_distinct(u: Seq<(Seq<char>, u64, u64)>) -> bool {
    forall|i: int, j: int| 0 <= i < j < u.len() ==> u[i].0 != u[j].0
}

/// Adding `size` bytes to the existing entry `i`: refused when a count would overflow,
/// else its bytes grow by `size` and its file count by one.
pub open spec fn add_outcome(
    before: Seq<(Seq<char>, u64, u64)>,
    after: Seq<(Seq<char>, u64, u64)>,
    ok: bool,
    i: int,
    size: u64,
) -> bool {
    let e = before[i];
    &&& ok == (e.1 + size <= u64::MAX && e.2 < u64::MAX)
    &&& ok ==> after == before.update(i, (e.0, (e.1 + size) as u64, (e.2 + 1) as u64))
    &&& !ok ==> after == before
}

/// Directory usage accumulated over the walk.
pub struct UsageMap {
    entries: Vec<DirUsage>,
}

impl View for UsageMap {
    type V = Seq<(Seq<char>, u64, u64)>;

    closed spec fn view(&self) -> Seq<(Seq<char>, u64, u64)> {
        usages_view(self.entries@)
    }
}

impl UsageMap {
    pub fn new() -> (m: Self)
        ensures
            m@.len() == 0,
    {
        let m = UsageMap { entries: Vec::new() };
        assert(m@ =~= Seq::<(Seq<char>, u64, u64)>::empty());
        m
    }

    /// Adds a file of `size` bytes in directory `dir`. Returns false, changing nothing,
    /// when the directory's byte or file count would overflow.
    pub fn add(&mut self, dir: String, size: u64) -> (ok: bool)
        requires
            dirs_distinct(old(self)@),
        ensures
            dirs_distinct(final(self)@),
            !has_dir(old(self)@, dir@) ==> ok && final(self)@ == old(self)@.push((dir@, size, 1u64)),
            forall|i: int|
                0 <= i < old(self)@.len() && (#[trigger] old(self)@[i]).0 == dir@ ==> add_outcome(
                    old(self)@,
                    final(self)@,
                    ok,
                    i,
                    size,
                ),
    {
        let d = chars_of(dir.as_str());
        let mut i: usize = 0;
        while i < self.entries.len()
            invariant
                i <= self.entries@.len(),
                self@.len() == self.entries@.len(),
                self@ == old(self)@,
                d@ == dir@,
                dirs_distinct(self@),
                forall|j: int| 0 <= j < i ==> self@[j].0 != dir@,
            decreases self.entries@.len() - i,
        {
            if same(&chars_of(self.entries[i].path.as_str()), &d) {
                assert(self@[i as int].0 == dir@);
                assert(has_dir(old(self)@, dir@));
                assert(forall|j: int| 0 <= j < self@.len() && self@[j].0 == dir@ ==> j == i);
                let e = &self.entries[i];
                if e.size_bytes > u64::MAX - size || e.file_count == u64::MAX {
                    return false;
                }
                let ghost before = self@;
                let updated = DirUsage {
                    path: dir,
                    size_bytes: e.size_bytes + size,
                    file_count: e.file_count + 1,
                };
                self.entries.set(i, updated);
                assert(self@ =~= before.update(i as int, usage_view(updated)));
                return true;
            }
            i = i + 1;
        }
        let ghost before = self@;
        self.entries.push(DirUsage { path: dir, size_bytes: size, file_count: 1 });
        assert(self@ =~= before.push((dir@, size, 1u64)));
        true
    }

    /// The entries, in the order their directories first appeared.
    pub fn into_entries(self) -> (r: Vec<DirUsage>)
        ensures
            usages_view(r@) == self@,
    {
        self.entries
    }
}

/// The `limit` largest entries by size, largest first; the entries left out are no
/// larger than any entry kept.
pub fn top_dirs(entries: Vec<DirUsage>, limit: usize) -> (r: Vec<DirUsage>)
    ensures
        r@.len() == (if entries@.len() < limit { entries@.len() } else { limit as nat }),
        forall|i: int, j: int|
            0 <= i < j < r@.len() ==> (#[trigger] r@[j]).size_bytes <= (#[trigger] r@[i]).size_bytes,
        exists|rest: Seq<DirUsage>|
            {
                &&& (usages_view(r@) + usages_view(rest)).to_multiset() == usages_view(entries@).to_multiset()
                &&& forall|i: int, j: int|
                    0 <= i < r@.len() && 0 <= j < rest.len() ==> (#[trigger] rest[j]).size_bytes
                        <= (#[trigger] r@[i]).size_bytes
            },
{
    broadcast use vstd::seq_lib::group_to_multiset_ensures;
    broadcast use vstd::multiset::group_multiset_axioms;

    let ghost all = usages_view(entries@);
    let mut rest = entries;
    let mut out: Vec<DirUsage> = Vec::new();
    proof {
        vstd::seq_lib::lemma_multiset_commutative(usages_view(out@), usages_view(rest@));
        assert(usages_view(out@) + usages_view(rest@) =~= all);
    }
    while out.len() < limit && rest.len() > 0
        invariant
            (usages_view(out@) + usages_view(rest@)).to_multiset() == all.to_multiset(),
            all.len() == out@.len() + rest@.len(),
            out@.len() <= limit,
            forall|i: int, j: int|
                0 <= i < j < out@.len() ==> (#[trigger] out@[j]).size_bytes <= (#[trigger] out@[i]).size_bytes,
            forall|i: int, j: int|
                0 <= i < out@.len() && 0 <= j < rest@.len() ==> (#[trigger] rest@[j]).size_bytes
                    <= (#[trigger] out@[i]).size_bytes,
        decreases rest@.len(),
    {
        let mut m: usize = 0;
        let mut k: usize = 1;
        while k < rest.len()
            invariant
                1 <= k <= rest@.len(),
                m < k,
                forall|j: int| 0 <= j < k ==> (#[trigger] rest@[j]).size_bytes <= rest@[m as int].size_bytes,
            decreases rest@.len() - k,
        {
            if rest[k].size_bytes > rest[m].size_bytes {
                m = k;
            }
            k = k + 1;
        }
        let ghost before_rest = rest@;
        let ghost before_out = out@;
        let top = rest.remove(m);
        out.push(top);
        proof {
            broadcast use vstd::seq_lib::group_to_multiset_ensures;
            broadcast use vstd::multiset::group_multiset_axioms;

            let mv = usage_view(before_rest[m as int]);
            assert(usages_view(rest@) =~= usages_view(before_rest).remove(m as int));
            assert(usages_view(out@) =~= usages_view(before_out).push(mv));
            vstd::seq_lib::lemma_multiset_commutative(usages_view(out@), usages_view(rest@));
            vstd::seq_lib::lemma_multiset_commutative(usages_view(before_out), usages_view(before_rest));
            assert(usages_view(before_rest)[m as int] == mv);
            assert(usages_view(before_rest).contains(mv));
            assert(usages_view(before_rest).remove(m as int).to_multiset() == usages_view(before_rest).to_multiset().remove(mv));
            assert(usages_view(before_out).push(mv).to_multiset() == usages_view(before_out).to_multiset().insert(mv));
            assert((usages_view(out@) + usages_view(rest@)).to_multiset() =~= (usages_view(before_out)
                + usages_view(before_rest)).to_multiset());
            assert forall|i: int, j: int|
                0 <= i < j < out@.len() implies (#[trigger] out@[j]).size_bytes <= (#[trigger] out@[i]).size_bytes by {
                assert(out@[i] == before_out[i]);
                if j < out@.len() - 1 {
                    assert(out@[j] == before_out[j]);
                }
            }
            assert forall|i: int, j: int|
                0 <= i < out@.len() && 0 <= j < rest@.len() implies (#[trigger] rest@[j]).size_bytes
                    <= (#[trigger] out@[i]).size_bytes by {
                let jj = if j < m { j } else { j + 1 };
                assert(rest@[j] == before_rest[jj]);
                if i < out@.len() - 1 {
                    assert(out@[i] == before_out[i]);
                }
            }
        }
    }
    proof {
        let rest_v = rest@;
        assert((usages_view(out@) + usages_view(rest_v)).to_multiset() == usages_view(entries@).to_multiset());
    }
    out
}

} // verus!

verus! {

/// Number of directories reported by the usage analysis.
pub const TOP_DIRS: usize = 100;

/// The state of a large-file deletion.
pub struct LargeDeleteView {
    /// The scan root, lowercased.
    pub root: Seq<char>,
    pub success: u64,
    pub failed: u64,
    pub errors: Seq<Seq<char>>,
    pub total: u64,
}

/// `s` is directory `root` or lies inside it: `root` is a prefix of `s` that ends at a
/// separator (`\` or `/`), either its own last character or the next one of `s`. So
/// `c:\data\ab\x.bin` is not inside `c:\data\a`.
pub open spec fn inside_root(s: Seq<char>, root: Seq<char>) -> bool {
    &&& starts_with(s, root)
    &&& {
        ||| s.len() == root.len()
        ||| (root.len() > 0 && (root.last() == '\\' || root.last() == '/'))
        ||| s[root.len() as int] == '\\'
        ||| s[root.len() as int] == '/'
    }
}

fn inside_root_exec(s: &[char], root: &[char]) -> (b: bool)
    ensures
        b == inside_root(s@, root@),
{
    if !has_prefix(s, root) {
        return false;
    }
    let n = root.len();
    if s.len() == n {
        return true;
    }
    if n > 0 && (root[n - 1] == '\\' || root[n - 1] == '/') {
        return true;
    }
    s[n] == '\\' || s[n] == '/'
}

/// Why a large file is not deleted, if it is not: it could not be resolved, it lies
/// outside the scan root (lowercase comparison on a separator boundary), it is protected
/// (by its text, or because it has no parent), or its name is a system file.
pub open spec fn large_rejection(
    v: LargeDeleteView,
    env: EnvView,
    path: Seq<char>,
    resolved: Result<Seq<char>, Seq<char>>,
    no_parent: bool,
    file_name: Option<Seq<char>>,
) -> Option<Seq<char>> {
    match resolved {
        Err(e) => Some("Cannot resolve path "@ + path + ": "@ + e),
        Ok(safe) => if !inside_root(lowercase_of(safe), v.root) {
            Some("Path outside scan root: "@ + safe)
        } else if protected_by_text(safe, env) || no_parent {
            Some("Protected path: "@ + safe)
        } else if file_name is Some && is_system_file_spec(file_name->0) {
            Some("System file not deletable: "@ + safe)
        } else {
            None
        },
    }
}

/// The deletion after one more failure with message `msg`.
pub open spec fn large_after_failure(v: LargeDeleteView, msg: Seq<char>) -> LargeDeleteView {
    LargeDeleteView { failed: (v.failed + 1) as u64, errors: v.errors.push(msg), ..v }
}

/// The outcome of checking `path` (resolved as `resolved`, with no-parent answer `np`
/// and file name `f`): a rejection counts a failure with its message and hands out
/// nothing; otherwise the state is unchanged and the resolved path is handed out.
pub open spec fn large_check_outcome(
    before: LargeDeleteView,
    after: LargeDeleteView,
    r: Option<Seq<char>>,
    env: EnvView,
    path: Seq<char>,
    resolved: Result<Seq<char>, Seq<char>>,
    np: bool,
    f: Option<Seq<char>>,
) -> bool {
    match large_rejection(before, env, path, resolved, np, f) {
        Some(msg) => r is None && after == large_after_failure(before, msg),
        None => after == before && (r matches Some(p) && resolved == Ok::<Seq<char>, Seq<char>>(p)),
    }
}

/// A deletion of large files below a scan root.
pub struct LargeDeleteSession {
    root: Vec<char>,
    success: u64,
    failed: u64,
    errors: Vec<String>,
    total: u64,
}

impl View for LargeDeleteSession {
    type V = LargeDeleteView;

    closed spec fn view(&self) -> LargeDeleteView {
        LargeDeleteView {
            root: self.root@,
            success: self.success,
            failed: self.failed,
            errors: self.errors.deep_view(),
            total: self.total,
        }
    }
}

fn concat2(a: &str, b: &str) -> (r: String)
    ensures
        r@ == a@ + b@,
{
    let mut v = chars_of(a);
    push_str(&mut v, b);
    string_of(&v)
}

impl LargeDeleteSession {
    /// A deletion of `total` paths below `root` (the resolved scan root).
    pub fn new(root: &str, total: u64) -> (s: Self)
        ensures
            s@.root == lowercase_of(root@),
            s@.success == 0,
            s@.failed == 0,
            s@.errors.len() == 0,
            s@.total == total,
    {
        let s = LargeDeleteSession {
            root: to_lowercase(&chars_of(root)),
            success: 0,
            failed: 0,
            errors: Vec::new(),
            total,
        };
        assert(s@.errors =~= Seq::<Seq<char>>::empty());
        s
    }

    fn fail(&mut self, msg: String)
        requires
            old(self)@.success + old(self)@.failed < old(self)@.total,
        ensures
            final(self)@ == large_after_failure(old(self)@, msg@),
    {
        let ghost before = self.errors.deep_view();
        self.failed = self.failed + 1;
        self.errors.push(msg);
        assert(self.errors.deep_view() =~= before.push(msg@));
    }

    /// Checks a path, given how it resolved, whether the resolved path has no parent,
    /// and its file name. Returns the resolved path to delete, or `None` after counting
    /// the path as failed with its reason.
    pub fn check_given(
        &mut self,
        env: &EnvVars,
        path: &str,
        resolved: Result<String, String>,
        no_parent: bool,
        file_name: Option<String>,
    ) -> (r: Option<String>)
        requires
            old(self)@.success + old(self)@.failed < old(self)@.total,
        ensures
            match large_rejection(
                old(self)@,
                env@,
                path@,
                resolved_view(resolved),
                no_parent,
                opt_string_view(file_name),
            ) {
                Some(msg) => r is None && final(self)@ == large_after_failure(old(self)@, msg),
                None => final(self)@ == old(self)@ && (r matches Some(p) && resolved_view(resolved)
                    == Ok::<Seq<char>, Seq<char>>(p@)),
            },
    {
        match resolved {
            Err(e) => {
                let mut v = chars_of("Cannot resolve path ");
                push_str(&mut v, path);
                push_str(&mut v, ": ");
                push_str(&mut v, e.as_str());
                self.fail(string_of(&v));
                None
            },
            Ok(safe) => {
                let lower = to_lowercase(&chars_of(safe.as_str()));
                if !inside_root_exec(&lower, &self.root) {
                    self.fail(concat2("Path outside scan root: ", safe.as_str()));
                    return None;
                }
                if is_protected_by_text(safe.as_str(), env) || no_parent {
                    self.fail(concat2("Protected path: ", safe.as_str()));
                    return None;
                }
                let system = match &file_name {
                    Some(f) => is_system_file(f.as_str()),
                    None => false,
                };
                if system {
                    self.fail(concat2("System file not deletable: ", safe.as_str()));
                    return None;
                }
                Some(safe)
            },
        }
    }

    /// Checks a path before deletion (see `check_given`); whether the resolved path has
    /// a parent and what its file name is are asked of the platform's path rules. The
    /// outcome is that of `check_given` for some such answers, where a path of
    /// `surely_has_parent` counts as having a parent. So a path that does not resolve, or
    /// lies outside the root, fails with its message, and a path outside the root or
    /// protected by its text is never handed out. A resolved path whose final component
    /// is the same on every platform (`simple_last_segment`) has a parent and is checked
    /// with that component as its file name, so a system hive file there is refused with
    /// "System file not deletable".
    pub fn check(&mut self, env: &EnvVars, path: &str, resolved: Result<String, String>) -> (r: Option<
        String,
    >)
        requires
            old(self)@.success + old(self)@.failed < old(self)@.total,
        ensures
            exists|np: bool, f: Option<Seq<char>>|
                {
                    &&& (resolved_view(resolved) matches Ok(s) && surely_has_parent(s) ==> !np)
                    &&& #[trigger] large_check_outcome(
                        old(self)@,
                        final(self)@,
                        opt_string_view(r),
                        env@,
                        path@,
                        resolved_view(resolved),
                        np,
                        f,
                    )
                },
            resolved_view(resolved) matches Ok(s) ==> (simple_last_segment(s) is Some
                ==> large_check_outcome(
                old(self)@,
                final(self)@,
                opt_string_view(r),
                env@,
                path@,
                resolved_view(resolved),
                false,
                simple_last_segment(s),
            )),
            r matches Some(p) ==> inside_root(lowercase_of(p@), old(self)@.root)
                && !protected_by_text(p@, env@) && resolved_view(resolved) == Ok::<
                Seq<char>,
                Seq<char>,
            >(p@) && final(self)@ == old(self)@,
    {
        let (no_parent, file_name) = match &resolved {
            Ok(safe) => (path_has_no_parent(safe.as_str()), path_file_name(safe.as_str())),
            Err(_) => (false, None),
        };
        let ghost np = no_parent;
        let ghost f = opt_string_view(file_name);
        let ghost rv = resolved_view(resolved);
        let r = self.check_given(env, path, resolved, no_parent, file_name);
        assert(large_check_outcome(old(self)@, self@, opt_string_view(r), env@, path@, rv, np, f));
        r
    }

    /// Records how removing an accepted path went (no delayed deletion here).
    pub fn record(&mut self, safe: &str, outcome: DeleteOutcome)
        requires
            old(self)@.success + old(self)@.failed < old(self)@.total,
        ensures
            final(self)@ == (match outcome {
                DeleteOutcome::Deleted => LargeDeleteView { success: (old(self)@.success + 1) as u64, ..old(self)@ },
                DeleteOutcome::Failed { message, busy } => large_after_failure(
                    old(self)@,
                    if busy {
                        "文件被进程占用，无法删除: "@ + safe@
                    } else {
                        message@
                    },
                ),
            }),
    {
        match outcome {
            DeleteOutcome::Deleted => {
                self.success = self.success + 1;
            },
            DeleteOutcome::Failed { message, busy } => {
                if busy {
                    self.fail(concat2("文件被进程占用，无法删除: ", safe));
                } else {
                    self.fail(message);
                }
            },
        }
    }

    /// Paths handled so far.
    pub fn handled(&self) -> (n: u64)
        requires
            self@.success + self@.failed <= self@.total,
        ensures
            n == self@.success + self@.failed,
    {
        self.success + self.failed
    }

    /// The outcome of the deletion.
    pub fn finish(self) -> (r: DeleteResult)
        ensures
            r.success == self@.success,
            r.failed == self@.failed,
            r.errors.deep_view() == self@.errors,
    {
        DeleteResult { success: self.success, failed: self.failed, errors: self.errors }
    }
}

/// The audit log entry of a large-file deletion of `total` paths, given the sizes still
/// readable afterwards: errors are logged as they are and no category is recorded.
pub fn large_delete_log_entry(
    timestamp: String,
    total: u64,
    sizes: &Vec<Option<u64>>,
    result: &DeleteResult,
) -> (r: CleanLogEntry)
    requires
        known_total(sizes@) <= u64::MAX,
    ensures
        r.timestamp == timestamp,
        r.total_files == total,
        r.total_bytes == known_total(sizes@),
        r.success == result.success,
        r.failed == result.failed,
        r.errors.deep_view() == result.errors.deep_view(),
        r.by_category@.len() == 0,
{
    let base = crate::cleanlog::clean_log_entry(timestamp, sizes, result);
    let mut errors: Vec<String> = Vec::new();
    let mut i: usize = 0;
    while i < result.errors.len()
        invariant
            i <= result.errors@.len(),
            errors.deep_view() == result.errors.deep_view().subrange(0, i as int),
        decreases result.errors@.len() - i,
    {
        let ghost before = errors.deep_view();
        let e = crate::text::string_from(result.errors[i].as_str());
        errors.push(e);
        assert(errors.deep_view() =~= before.push(e@));
        assert(result.errors.deep_view()[i as int] == result.errors@[i as int]@);
        assert(errors.deep_view() =~= result.errors.deep_view().subrange(0, i + 1));
        i = i + 1;
    }
    assert(result.errors.deep_view().subrange(0, result.errors@.len() as int) =~= result.errors.deep_view());
    let r = CleanLogEntry {
        timestamp: base.timestamp,
        total_files: total,
        total_bytes: base.total_bytes,
        success: result.success,
        failed: result.failed,
        errors,
        by_category: Vec::new(),
    };
    assert(r.by_category@ =~= Seq::<(String, crate::cleanlog::CategorySummary)>::empty());
    r
}

} // verus!
