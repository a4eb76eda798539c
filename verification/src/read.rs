//! The `read` tool: file kinds by extension, line-numbered text, image data
//! URLs, notebook rendering, and the tool's request handling.

use vstd::prelude::*;
use base64::Engine;
use crate::json::{JsonValue, member};
use crate::text::{chars_of, string_from, split_on, split_chars, eq_chars, lowercase, to_lowercase, lines, lines_of, decimal, usize_to_decimal, join, join_chars, rfind_char_before, rfind_char_upto};
use crate::tool::{ToolError, ToolResult, ToolOptions, PermissionCheckResult};

verus! {

/// Largest text file the tool reads, in bytes.
pub const MAX_TEXT_FILE_SIZE: u64 = 10485760;

/// Largest image the tool reads, in bytes.
pub const MAX_IMAGE_FILE_SIZE: u64 = 52428800;

/// A range of lines, numbered from 1; `end` is inclusive, `None` reads to the end.
#[derive(Debug, Clone, Copy, PartialEq, Eq, Structural)]
pub struct LineRange {
    pub start: usize,
    pub end: Option<usize>,
}

impl LineRange {
    /// The lines `start..=end` (or from `start` on).
    pub fn new(start: usize, end: Option<usize>) -> (r: Self)
        ensures
            r.start == start,
            r.end == end,
    {
        LineRange { start, end }
    }

    /// The lines from `start` to the end.
    pub fn from_start(start: usize) -> (r: Self)
        ensures
            r.start == start,
            r.end is None,
    {
        LineRange { start, end: None }
    }

    /// `count` lines from `start`.
    pub fn lines(start: usize, count: usize) -> (r: Self)
        requires
            1 <= start + count <= usize::MAX,
        ensures
            r.start == start,
            r.end == Some((start + count - 1) as usize),
    {
        LineRange { start, end: Some(start + count - 1) }
    }
}

/// The last component of the pieces that names something (not empty, not `.`).
pub open spec fn last_component(parts: Seq<Seq<char>>) -> Option<Seq<char>>
    decreases parts.len(),
{
    if parts.len() == 0 {
        None
    } else if parts.last().len() == 0 || parts.last() == "."@ {
        last_component(parts.drop_last())
    } else {
        Some(parts.last())
    }
}

/// The final component of a `/`-separated path (`Path::file_name`): none for a
/// path that ends in `..` or names no component.
pub open spec fn file_name(p: Seq<char>) -> Option<Seq<char>> {
    match last_component(split_on(p, '/')) {
        Some(c) => if c == ".."@ {
            None
        } else {
            Some(c)
        },
        None => None,
    }
}

/// The extension of a path (`Path::extension`): what follows the last `.` of
/// its file name, unless that `.` starts the name.
pub open spec fn extension(p: Seq<char>) -> Option<Seq<char>> {
    match file_name(p) {
        None => None,
        Some(f) => match rfind_char_before(f, '.', f.len() as int) {
            None => None,
            Some(i) => if i == 0 {
                None
            } else {
                Some(f.skip(i + 1))
            },
        },
    }
}

/// The file name of a path.
pub fn path_file_name(p: &str) -> (r: Option<String>)
    ensures
        match r {
            Some(f) => file_name(p@) == Some(f@),
            None => file_name(p@) is None,
        },
{
    let v = chars_of(p);
    let parts = split_chars(v.as_slice(), '/');
    let ghost sp = split_on(p@, '/');
    let dot = chars_of(".");
    let dotdot = chars_of("..");
    let mut n = parts.len();
    proof {
        assert(parts@.map_values(|w: Vec<char>| w@) =~= sp);
        assert(sp.take(n as int) =~= sp);
    }
    while n > 0
        invariant
            n <= parts@.len() == sp.len(),
            forall|i: int| 0 <= i < parts@.len() ==> (#[trigger] parts@[i])@ == sp[i],
            dot@ == "."@,
            dotdot@ == ".."@,
            sp == split_on(p@, '/'),
            last_component(sp) == last_component(sp.take(n as int)),
        decreases n,
    {
        proof {
            assert(sp.take(n as int).drop_last() =~= sp.take(n - 1));
            assert(sp.take(n as int).last() == parts@[n - 1]@);
        }
        let c = &parts[n - 1];
        if c.len() > 0 && !eq_chars(c.as_slice(), dot.as_slice()) {
            if eq_chars(c.as_slice(), dotdot.as_slice()) {
                return None;
            }
            return Some(string_from(c.as_slice()));
        }
        n = n - 1;
    }
    None
}

/// The extension of a path.
pub fn path_extension(p: &str) -> (r: Option<String>)
    ensures
        match r {
            Some(e) => extension(p@) == Some(e@),
            None => extension(p@) is None,
        },
{
    let f = match path_file_name(p) {
        None => return None,
        Some(f) => f,
    };
    let fv = chars_of(f.as_str());
    match rfind_char_upto(fv.as_slice(), '.', fv.len()) {
        None => None,
        Some(i) => if i == 0 {
            None
        } else {
            let e = crate::text::slice_range(fv.as_slice(), i + 1, fv.len());
            proof {
                assert(e@ =~= f@.skip(i + 1));
            }
            Some(string_from(e.as_slice()))
        },
    }
}

/// The image extensions the tool knows.
pub open spec fn image_extensions() -> Seq<Seq<char>> {
    seq!["png"@, "jpg"@, "jpeg"@, "gif"@, "webp"@, "bmp"@, "ico"@, "svg"@]
}

/// The text extensions the tool knows.
pub open spec fn text_extensions() -> Seq<Seq<char>> {
    seq![
        "txt"@, "md"@, "rs"@, "py"@, "js"@, "ts"@, "jsx"@, "tsx"@, "json"@, "yaml"@, "yml"@, "toml"@, "xml"@,
        "html"@, "css"@, "scss"@, "less"@, "sql"@, "sh"@, "bash"@, "zsh"@, "c"@, "cpp"@, "h"@, "hpp"@, "java"@,
        "go"@, "rb"@, "php"@, "swift"@, "kt"@, "scala"@, "r"@, "lua"@, "pl"@, "pm"@, "ex"@, "exs"@, "erl"@,
        "hrl"@, "hs"@, "ml"@, "mli"@, "fs"@, "fsx"@, "clj"@, "cljs"@, "lisp"@, "el"@, "vim"@, "conf"@, "ini"@,
        "cfg"@, "env"@, "gitignore"@, "dockerignore"@, "makefile"@, "cmake"@, "gradle"@
    ]
}

fn listed(e: &str, list: &[&str]) -> (r: bool)
    ensures
        r == list@.map_values(|s: &str| s@).contains(e@),
{
    let k = chars_of(e);
    let ghost vs = list@.map_values(|s: &str| s@);
    let mut i: usize = 0;
    while i < list.len()
        invariant
            i <= list@.len(),
            vs == list@.map_values(|s: &str| s@),
            k@ == e@,
            forall|j: int| 0 <= j < i ==> vs[j] != e@,
        decreases list@.len() - i,
    {
        let c = chars_of(list[i]);
        if eq_chars(c.as_slice(), k.as_slice()) {
            proof {
                assert(vs[i as int] == e@);
            }
            return true;
        }
        i = i + 1;
    }
    false
}

fn image_extension_listed(e: &str) -> (r: bool)
    ensures
        r == image_extensions().contains(e@),
{
    let list: [&str; 8] = ["png", "jpg", "jpeg", "gif", "webp", "bmp", "ico", "svg"];
    proof {
        assert(list@.map_values(|s: &str| s@) =~= image_extensions());
    }
    listed(e, &list)
}

fn text_extension_listed(e: &str) -> (r: bool)
    ensures
        r == text_extensions().contains(e@),
{
    let list: [&str; 59] = [
        "txt", "md", "rs", "py", "js", "ts", "jsx", "tsx", "json", "yaml", "yml", "toml", "xml", "html", "css",
        "scss", "less", "sql", "sh", "bash", "zsh", "c", "cpp", "h", "hpp", "java", "go", "rb", "php", "swift",
        "kt", "scala", "r", "lua", "pl", "pm", "ex", "exs", "erl", "hrl", "hs", "ml", "mli", "fs", "fsx", "clj",
        "cljs", "lisp", "el", "vim", "conf", "ini", "cfg", "env", "gitignore", "dockerignore", "makefile", "cmake",
        "gradle",
    ];
    proof {
        assert(list@.map_values(|s: &str| s@) =~= text_extensions());
    }
    listed(e, &list)
}

/// The lowercased extension of a path.
pub open spec fn lower_extension(p: Seq<char>) -> Option<Seq<char>> {
    match extension(p) {
        Some(e) => Some(lowercase(e)),
        None => None,
    }
}

fn lower_extension_of(p: &str) -> (r: Option<String>)
    ensures
        match r {
            Some(e) => lower_extension(p@) == Some(e@),
            None => lower_extension(p@) is None,
        },
{
    match path_extension(p) {
        Some(e) => Some(to_lowercase(e.as_str())),
        None => None,
    }
}

/// Whether a path names an image, by its extension in any case.
pub open spec fn is_image_path(p: Seq<char>) -> bool {
    lower_extension(p) matches Some(e) && image_extensions().contains(e)
}

/// Whether a path names a PDF file.
pub open spec fn is_pdf_path(p: Seq<char>) -> bool {
    lower_extension(p) == Some("pdf"@)
}

/// Whether a path names a Jupyter notebook.
pub open spec fn is_notebook_path(p: Seq<char>) -> bool {
    lower_extension(p) == Some("ipynb"@)
}

/// Whether a path is taken for text: a known text extension, no extension, or
/// any extension but those of images, PDF files and notebooks.
pub open spec fn is_text_path(p: Seq<char>) -> bool {
    match lower_extension(p) {
        None => true,
        Some(e) => text_extensions().contains(e) || !(image_extensions().contains(e) || e == "pdf"@ || e == "ipynb"@),
    }
}

/// The MIME type of an image, by its lowercased extension.
pub open spec fn image_mime(ext: Seq<char>) -> Seq<char> {
    if ext == "png"@ {
        "image/png"@
    } else if ext == "jpg"@ || ext == "jpeg"@ {
        "image/jpeg"@
    } else if ext == "gif"@ {
        "image/gif"@
    } else if ext == "webp"@ {
        "image/webp"@
    } else if ext == "bmp"@ {
        "image/bmp"@
    } else if ext == "ico"@ {
        "image/x-icon"@
    } else if ext == "svg"@ {
        "image/svg+xml"@
    } else {
        "application/octet-stream"@
    }
}

/// The MIME type of the image a path names.
pub fn image_mime_type(p: &str) -> (r: &'static str)
    ensures
        r@ == image_mime(match lower_extension(p@) {
            Some(e) => e,
            None => Seq::empty(),
        }),
{
    let e = match lower_extension_of(p) {
        Some(e) => e,
        None => String::new(),
    };
    let s = e.as_str();
    if crate::text::str_eq(s, "png") {
        "image/png"
    } else if crate::text::str_eq(s, "jpg") || crate::text::str_eq(s, "jpeg") {
        "image/jpeg"
    } else if crate::text::str_eq(s, "gif") {
        "image/gif"
    } else if crate::text::str_eq(s, "webp") {
        "image/webp"
    } else if crate::text::str_eq(s, "bmp") {
        "image/bmp"
    } else if crate::text::str_eq(s, "ico") {
        "image/x-icon"
    } else if crate::text::str_eq(s, "svg") {
        "image/svg+xml"
    } else {
        "application/octet-stream"
    }
}

/// A file history and the switch for PDF reading; the tool itself.
pub struct ReadTool {
    read_history: FileReadHistory,
    pdf_enabled: bool,
}

impl ReadTool {
    /// The file a call names: the path itself when it is absolute, else the
    /// path joined to the call's working directory (`Path::join`).
    pub fn resolve_path(&self, path: &str, context: &crate::tool::ToolContext) -> (r: String)
        ensures
            r@ == crate::rewind::path_join(context.working_directory@, path@),
    {
        crate::rewind::join_path(context.working_directory.as_str(), path)
    }

    /// Whether a path names an image.
    pub fn is_image_file(path: &str) -> (r: bool)
        ensures
            r == is_image_path(path@),
    {
        match lower_extension_of(path) {
            Some(e) => image_extension_listed(e.as_str()),
            None => false,
        }
    }

    /// Whether a path names a PDF file.
    pub fn is_pdf_file(path: &str) -> (r: bool)
        ensures
            r == is_pdf_path(path@),
    {
        match lower_extension_of(path) {
            Some(e) => crate::text::str_eq(e.as_str(), "pdf"),
            None => false,
        }
    }

    /// Whether a path names a Jupyter notebook.
    pub fn is_notebook_file(path: &str) -> (r: bool)
        ensures
            r == is_notebook_path(path@),
    {
        match lower_extension_of(path) {
            Some(e) => crate::text::str_eq(e.as_str(), "ipynb"),
            None => false,
        }
    }

    /// Whether a path is taken for text (see `is_text_path`).
    pub fn is_text_file(path: &str) -> (r: bool)
        ensures
            r == is_text_path(path@),
    {
        match lower_extension_of(path) {
            None => true,
            Some(e) => {
                if text_extension_listed(e.as_str()) {
                    true
                } else if image_extension_listed(e.as_str()) || crate::text::str_eq(e.as_str(), "pdf")
                    || crate::text::str_eq(e.as_str(), "ipynb") {
                    false
                } else {
                    true
                }
            },
        }
    }
}

/// One file that was read: its path, size in bytes and number of lines.
#[derive(Debug, Clone)]
pub struct FileReadRecord {
    pub path: String,
    pub size: u64,
    pub line_count: usize,
}

/// The files read so far, one record per path.
#[derive(Debug)]
pub struct FileReadHistory {
    records: Vec<FileReadRecord>,
}

/// The record held for `path` (the latest one).
pub open spec fn record_for(rs: Seq<FileReadRecord>, path: Seq<char>) -> Option<FileReadRecord>
    decreases rs.len(),
{
    if rs.len() == 0 {
        None
    } else if rs.last().path@ == path {
        Some(rs.last())
    } else {
        record_for(rs.drop_last(), path)
    }
}

impl FileReadHistory {
    /// The records, oldest first.
    pub closed spec fn records(&self) -> Seq<FileReadRecord> {
        self.records@
    }

    /// An empty history.
    pub fn new() -> (r: Self)
        ensures
            r.records().len() == 0,
    {
        FileReadHistory { records: Vec::new() }
    }

    /// Records a read of a file; a later read of the same path supersedes it.
    pub fn record_read(&mut self, record: FileReadRecord)
        ensures
            record_for(final(self).records(), record.path@) == Some(record),
            forall|p: Seq<char>| p != record.path@ ==> record_for(final(self).records(), p) == record_for(old(self).records(), p),
    {
        let ghost before = self.records@;
        self.records.push(record);
        proof {
            assert(self.records@.drop_last() =~= before);
        }
    }

    /// Whether the file was read.
    pub fn has_read(&self, path: &str) -> (r: bool)
        ensures
            r == record_for(self.records(), path@) is Some,
    {
        let k = chars_of(path);
        let mut i = self.records.len();
        proof {
            assert(self.records@.take(i as int) =~= self.records@);
        }
        while i > 0
            invariant
                i <= self.records@.len(),
                k@ == path@,
                record_for(self.records@.take(i as int), path@) == record_for(self.records@, path@),
            decreases i,
        {
            proof {
                assert(self.records@.take(i as int).drop_last() =~= self.records@.take(i - 1));
                assert(self.records@.take(i as int).last() == self.records@[i - 1]);
            }
            let c = chars_of(self.records[i - 1].path.as_str());
            if eq_chars(c.as_slice(), k.as_slice()) {
                return true;
            }
            i = i - 1;
        }
        false
    }
}

/// A fresh, empty read history.
pub fn create_shared_history() -> (r: FileReadHistory)
    ensures
        r.records().len() == 0,
{
    FileReadHistory::new()
}

/// The 0-based bounds `[start, end)` of the lines shown out of `total`: the
/// range's start less one and its end, both capped at `total`.
pub open spec fn range_bounds(total: nat, range: Option<LineRange>) -> (nat, nat) {
    match range {
        Some(r) => (
            if r.start == 0 {
                0
            } else if r.start - 1 > total {
                total
            } else {
                (r.start - 1) as nat
            },
            match r.end {
                Some(e) => if e > total {
                    total
                } else {
                    e as nat
                },
                None => total,
            },
        ),
        None => (0, total),
    }
}

/// The range can be shown: it does not end before it starts.
pub open spec fn range_fits(total: nat, range: Option<LineRange>) -> bool {
    range_bounds(total, range).0 <= range_bounds(total, range).1
}

/// `s` right-aligned in a field of `w` characters.
pub open spec fn pad_left(s: Seq<char>, w: nat) -> Seq<char> {
    if s.len() >= w {
        s
    } else {
        Seq::new((w - s.len()) as nat, |i: int| ' ') + s
    }
}

/// One line with its number, the numbers right-aligned to `width`.
pub open spec fn numbered_line(n: nat, width: nat, line: Seq<char>) -> Seq<char> {
    pad_left(decimal(n), width) + " | "@ + line
}

/// The lines of `text` in the range, each with its number, joined by newlines;
/// numbers are as wide as the largest bound shown (at least one digit).
pub open spec fn rendered_text(text: Seq<char>, range: Option<LineRange>) -> Seq<char> {
    let ls = lines(text);
    let (start, end) = range_bounds(ls.len(), range);
    let width = decimal(if end > 0 { end } else { 1 }).len();
    join(Seq::new((end - start) as nat, |i: int| numbered_line((start + i + 1) as nat, width, ls[start + i])), "\n"@)
}

fn pad_left_chars(s: Vec<char>, w: usize) -> (r: Vec<char>)
    ensures
        r@ == pad_left(s@, w as nat),
{
    if s.len() >= w {
        return s;
    }
    let mut r: Vec<char> = Vec::new();
    let k = w - s.len();
    let mut i: usize = 0;
    while i < k
        invariant
            i <= k,
            r@ == Seq::new(i as nat, |j: int| ' '),
        decreases k - i,
    {
        r.push(' ');
        proof {
            assert(r@ =~= Seq::new((i + 1) as nat, |j: int| ' '));
        }
        i = i + 1;
    }
    r.extend_from_slice(s.as_slice());
    r
}

/// The lines of `text` in `range`, numbered (see `rendered_text`).
pub fn render_text(text: &str, range: Option<LineRange>) -> (r: String)
    requires
        range_fits(lines(text@).len(), range),
    ensures
        r@ == rendered_text(text@, range),
{
    let v = chars_of(text);
    let ls = lines_of(v.as_slice());
    let ghost lv = lines(text@);
    let total = ls.len();
    let (start, end) = match range {
        Some(r) => {
            let s0 = if r.start == 0 {
                0
            } else if r.start - 1 > total {
                total
            } else {
                r.start - 1
            };
            let e0 = match r.end {
                Some(e) => if e > total {
                    total
                } else {
                    e
                },
                None => total,
            };
            (s0, e0)
        },
        None => (0, total),
    };
    proof {
        assert((start as nat, end as nat) == range_bounds(lv.len(), range));
    }
    let wd = usize_to_decimal(if end > 0 { end } else { 1 });
    let width = wd.len();
    let ghost shown = Seq::new((end - start) as nat, |i: int| numbered_line((start + i + 1) as nat, width as nat, lv[start + i]));
    let mut out: Vec<Vec<char>> = Vec::new();
    let mut i: usize = start;
    while i < end
        invariant
            start <= i <= end <= total == lv.len(),
            ls@.len() == lv.len(),
            forall|j: int| 0 <= j < ls@.len() ==> (#[trigger] ls@[j])@ == lv[j],
            shown == Seq::new((end - start) as nat, |k: int| numbered_line((start + k + 1) as nat, width as nat, lv[start + k])),
            rows(out@) == shown.take(i - start),
        decreases end - i,
    {
        let num = usize_to_decimal(i + 1);
        let mut line = pad_left_chars(num, width);
        line.push(' ');
        line.push('|');
        line.push(' ');
        line.extend_from_slice(ls[i].as_slice());
        let ghost before = out@;
        out.push(line);
        proof {
            reveal_strlit(" | ");
            assert(line@ =~= numbered_line((i + 1) as nat, width as nat, lv[i as int]));
            assert(shown.take(i + 1 - start) =~= shown.take(i - start).push(shown[i - start]));
            assert(rows(out@) =~= before.map_values(|w: Vec<char>| w@).push(line@));
        }
        i = i + 1;
    }
    proof {
        assert(shown.take(end - start) =~= shown);
    }
    let sep = chars_of("\n");
    let joined = join_chars(&out, sep.as_slice());
    string_from(joined.as_slice())
}

/// The text of file content, invalid UTF-8 replaced (`String::from_utf8_lossy`).
pub uninterp spec fn utf8_lossy(bytes: Seq<u8>) -> Seq<char>;

/// `String::from_utf8_lossy`: the content as text, each invalid UTF-8
/// sequence replaced by U+FFFD.
#[verifier::external_body]
pub(crate) fn decode_utf8_lossy(bytes: &[u8]) -> (r: String)
    ensures
        r@ == utf8_lossy(bytes@),
{
    String::from_utf8_lossy(bytes).into_owned()
}

/// The numbered lines of file content in `range`; `None` when the range ends
/// before it starts.
pub fn render_text_content(content: &[u8], range: Option<LineRange>) -> (r: Option<String>)
    ensures
        match r {
            Some(t) => range_fits(lines(utf8_lossy(content@)).len(), range) && t@ == rendered_text(utf8_lossy(content@), range),
            None => !range_fits(lines(utf8_lossy(content@)).len(), range),
        },
{
    let text = decode_utf8_lossy(content);
    let v = chars_of(text.as_str());
    let total = lines_of(v.as_slice()).len();
    let (start, end) = match range {
        Some(r) => {
            let s0 = if r.start == 0 {
                0
            } else if r.start - 1 > total {
                total
            } else {
                r.start - 1
            };
            let e0 = match r.end {
                Some(e) => if e > total {
                    total
                } else {
                    e
                },
                None => total,
            };
            (s0, e0)
        },
        None => (0, total),
    };
    if start > end {
        return None;
    }
    Some(render_text(text.as_str(), range))
}

/// The number of lines of file content.
pub fn line_count(content: &[u8]) -> (r: usize)
    ensures
        r == lines(utf8_lossy(content@)).len(),
{
    let text = decode_utf8_lossy(content);
    let v = chars_of(text.as_str());
    lines_of(v.as_slice()).len()
}

/// What the standard base64 alphabet, with padding, makes of these bytes.
pub uninterp spec fn base64_standard(bytes: Seq<u8>) -> Seq<char>;

/// `base64::engine::general_purpose::STANDARD.encode`: the bytes in standard
/// base64 with padding.
#[verifier::external_body]
pub(crate) fn base64_encode(bytes: &[u8]) -> (r: String)
    ensures
        r@ == base64_standard(bytes@),
{
    base64::engine::general_purpose::STANDARD.encode(bytes)
}

/// The data URL of an image: its MIME type (by the path's extension) and its
/// content in base64.
pub fn image_data_url(path: &str, content: &[u8]) -> (r: String)
    ensures
        r@ == "data:"@ + image_mime(match lower_extension(path@) {
            Some(e) => e,
            None => Seq::empty(),
        }) + ";base64,"@ + base64_standard(content@),
{
    let mut r = String::from_str("data:");
    r.append(image_mime_type(path));
    r.append(";base64,");
    let b = base64_encode(content);
    r.append(b.as_str());
    r
}

pub const MSG_PDF_DISABLED: &'static str = "PDF reading is not enabled. Enable it with ReadTool::with_pdf_enabled(true)";

/// What the tool shows for a PDF file, which it does not convert to text.
pub fn pdf_placeholder(display_path: &str, size: usize) -> (r: String)
    ensures
        r@ == "[PDF file: "@ + display_path@ + " ("@ + decimal(size as nat) + " bytes)]\nPDF text extraction requires additional dependencies.\nConsider using an external tool to convert PDF to text."@,
{
    let mut r = String::from_str("[PDF file: ");
    r.append(display_path);
    r.append(" (");
    let n = usize_to_decimal(size);
    let ns = string_from(n.as_slice());
    r.append(ns.as_str());
    r.append(" bytes)]\nPDF text extraction requires additional dependencies.\nConsider using an external tool to convert PDF to text.");
    r
}

/// The source text of a notebook cell: a string, or the strings of an array
/// run together (other items skipped); empty for anything else.
pub open spec fn cell_source(v: JsonValue) -> Seq<char> {
    match v {
        JsonValue::String(s) => s@,
        JsonValue::Array(items) => string_items(items@, items@.len() as nat),
        _ => Seq::empty(),
    }
}

/// The strings among the first `n` items, run together.
pub open spec fn string_items(items: Seq<JsonValue>, n: nat) -> Seq<char>
    decreases n,
{
    if n == 0 || n > items.len() {
        Seq::empty()
    } else {
        string_items(items, (n - 1) as nat) + match items[n - 1] {
            JsonValue::String(s) => s@,
            _ => Seq::empty(),
        }
    }
}

fn cell_source_of(v: &JsonValue) -> (r: Vec<char>)
    ensures
        r@ == cell_source(*v),
{
    match v {
        JsonValue::String(s) => chars_of(s.as_str()),
        JsonValue::Array(items) => {
            let mut out: Vec<char> = Vec::new();
            let mut i: usize = 0;
            while i < items.len()
                invariant
                    i <= items@.len(),
                    out@ == string_items(items@, i as nat),
                decreases items@.len() - i,
            {
                match &items[i] {
                    JsonValue::String(s) => {
                        let c = chars_of(s.as_str());
                        out.extend_from_slice(c.as_slice());
                    },
                    _ => {},
                }
                proof {
                    assert(out@ =~= string_items(items@, (i + 1) as nat));
                }
                i = i + 1;
            }
            out
        },
        _ => Vec::new(),
    }
}

/// The text of a cell output: its `text`, else its `data` entry `text/plain`.
pub open spec fn output_text(out: JsonValue) -> Option<Seq<char>> {
    match member(out, "text"@) {
        Some(t) => Some(cell_source(t)),
        None => match member(out, "data"@) {
            Some(d) => match member(d, "text/plain"@) {
                Some(t) => Some(cell_source(t)),
                None => None,
            },
            None => None,
        },
    }
}

fn output_text_of(out: &JsonValue) -> (r: Option<Vec<char>>)
    ensures
        match r {
            Some(t) => output_text(*out) == Some(t@),
            None => output_text(*out) is None,
        },
{
    match out.get("text") {
        Some(t) => return Some(cell_source_of(t)),
        None => {},
    }
    match out.get("data") {
        Some(d) => match d.get("text/plain") {
            Some(t) => Some(cell_source_of(t)),
            None => None,
        },
        None => None,
    }
}

/// The fenced texts of the first `n` outputs that have one.
pub open spec fn output_blocks(outs: Seq<JsonValue>, n: nat) -> Seq<Seq<char>>
    decreases n,
{
    if n == 0 || n > outs.len() {
        seq![]
    } else {
        let r = output_blocks(outs, (n - 1) as nat);
        match output_text(outs[n - 1]) {
            Some(t) => r.push("```\n"@ + t + "\n```"@),
            None => r,
        }
    }
}

/// The text of a cell's type (`unknown` when it has none).
pub open spec fn cell_type(cell: JsonValue) -> Seq<char> {
    match member(cell, "cell_type"@) {
        Some(JsonValue::String(t)) => t@,
        _ => "unknown"@,
    }
}

/// The texts of character rows.
pub open spec fn rows(ws: Seq<Vec<char>>) -> Seq<Seq<char>> {
    ws.map_values(|w: Vec<char>| w@)
}

/// The pieces that show cell `index` (counted from 0).
pub open spec fn cell_pieces(index: nat, cell: JsonValue) -> Seq<Seq<char>> {
    let src = match member(cell, "source"@) {
        Some(s) => cell_source(s),
        None => Seq::empty(),
    };
    let ty = cell_type(cell);
    let head = "## Cell "@ + decimal(index + 1);
    if ty == "code"@ {
        let base = seq![head + " [code]\n```"@, src, "```\n"@];
        match member(cell, "outputs"@) {
            Some(JsonValue::Array(outs)) => if outs@.len() > 0 {
                base + seq!["### Output:"@] + output_blocks(outs@, outs@.len() as nat)
            } else {
                base
            },
            _ => base,
        }
    } else {
        seq![head + " ["@ + ty + "]\n"@, src, Seq::empty()]
    }
}

/// The pieces that show the first `n` cells.
pub open spec fn cells_pieces(cells: Seq<JsonValue>, n: nat) -> Seq<Seq<char>>
    decreases n,
{
    if n == 0 || n > cells.len() {
        seq![]
    } else {
        cells_pieces(cells, (n - 1) as nat) + cell_pieces((n - 1) as nat, cells[n - 1])
    }
}

/// A notebook shown as text: a title with its path, then each cell with its
/// number and type, its source, and for code cells the texts of their outputs.
/// `None` when the notebook has no `cells` array.
pub open spec fn notebook_text(display_path: Seq<char>, nb: JsonValue) -> Option<Seq<char>> {
    match member(nb, "cells"@) {
        Some(JsonValue::Array(cells)) => Some(join(
            seq!["# Notebook: "@ + display_path + "\n"@] + cells_pieces(cells@, cells@.len() as nat),
            "\n"@,
        )),
        _ => None,
    }
}

pub const MSG_MISSING_CELLS: &'static str = "Invalid notebook format: missing cells";

fn push_piece(out: &mut Vec<Vec<char>>, piece: Vec<char>)
    ensures
        rows(final(out)@) == rows(old(out)@).push(piece@),
{
    let ghost before = out@;
    out.push(piece);
    proof {
        assert(rows(out@) =~= before.map_values(|w: Vec<char>| w@).push(piece@));
    }
}

fn cat(a: &str, b: &[char]) -> (r: Vec<char>)
    ensures
        r@ == a@ + b@,
{
    let mut r = chars_of(a);
    r.extend_from_slice(b);
    r
}

fn cell_pieces_of(index: usize, cell: &JsonValue, out: &mut Vec<Vec<char>>)
    requires
        index < usize::MAX,
    ensures
        rows(final(out)@) == rows(old(out)@) + cell_pieces(index as nat, *cell),
{
    let ghost start = rows(out@);
    let src = match cell.get("source") {
        Some(s) => cell_source_of(s),
        None => Vec::new(),
    };
    let ty: Vec<char> = match cell.get("cell_type") {
        Some(JsonValue::String(t)) => chars_of(t.as_str()),
        _ => chars_of("unknown"),
    };
    let num = usize_to_decimal(index + 1);
    let head = cat("## Cell ", num.as_slice());
    let code = chars_of("code");
    if eq_chars(ty.as_slice(), code.as_slice()) {
        let mut h = head;
        let tail = chars_of(" [code]\n```");
        h.extend_from_slice(tail.as_slice());
        let ghost head_spec = "## Cell "@ + decimal(index as nat + 1);
        let ghost src_spec = match member(*cell, "source"@) {
            Some(s) => cell_source(s),
            None => Seq::empty(),
        };
        assert(h@ == head_spec + " [code]\n```"@);
        assert(src@ == src_spec);
        push_piece(out, h);
        assert(rows(out@) == start.push(head_spec + " [code]\n```"@));
        push_piece(out, src);
        assert(rows(out@) == start.push(head_spec + " [code]\n```"@).push(src_spec));
        push_piece(out, chars_of("```\n"));
        let ghost base = rows(out@);
        assert(base =~= start + seq![head_spec + " [code]\n```"@, match member(*cell, "source"@) {
            Some(s) => cell_source(s),
            None => Seq::empty(),
        }, "```\n"@]);
        match cell.get("outputs") {
            Some(JsonValue::Array(outs)) => if outs.len() > 0 {
                push_piece(out, chars_of("### Output:"));
                let mut i: usize = 0;
                while i < outs.len()
                    invariant
                        i <= outs@.len(),
                        rows(out@) == base + seq!["### Output:"@] + output_blocks(outs@, i as nat),
                    decreases outs@.len() - i,
                {
                    let ghost prev = rows(out@);
                    match output_text_of(&outs[i]) {
                        Some(t) => {
                            let mut b = cat("```\n", t.as_slice());
                            let close = chars_of("\n```");
                            b.extend_from_slice(close.as_slice());
                            assert(b@ == "```\n"@ + t@ + "\n```"@);
                            push_piece(out, b);
                            assert(output_blocks(outs@, (i + 1) as nat) == output_blocks(outs@, i as nat).push(b@));
                        },
                        None => {
                            assert(output_blocks(outs@, (i + 1) as nat) == output_blocks(outs@, i as nat));
                        },
                    }
                    proof {
                        assert(rows(out@) =~= base + seq!["### Output:"@] + output_blocks(outs@, (i + 1) as nat));
                    }
                    i = i + 1;
                }
            },
            _ => {},
        }
        proof {
            assert(rows(out@) =~= start + cell_pieces(index as nat, *cell));
        }
    } else {
        let mut h = head;
        let open = chars_of(" [");
        h.extend_from_slice(open.as_slice());
        h.extend_from_slice(ty.as_slice());
        let close = chars_of("]\n");
        h.extend_from_slice(close.as_slice());
        let ghost head_spec = "## Cell "@ + decimal(index as nat + 1);
        let ghost src_spec = match member(*cell, "source"@) {
            Some(s) => cell_source(s),
            None => Seq::empty(),
        };
        assert(h@ == head_spec + " ["@ + cell_type(*cell) + "]\n"@);
        assert(src@ == src_spec);
        push_piece(out, h);
        assert(rows(out@) == start.push(head_spec + " ["@ + cell_type(*cell) + "]\n"@));
        push_piece(out, src);
        assert(rows(out@) == start.push(head_spec + " ["@ + cell_type(*cell) + "]\n"@).push(src_spec));
        let empty: Vec<char> = Vec::new();
        assert(empty@ =~= Seq::<char>::empty());
        push_piece(out, empty);
        proof {
            assert(rows(out@) =~= start + cell_pieces(index as nat, *cell));
        }
    }
}

/// A notebook shown as text (see `notebook_text`); refused when it has no
/// `cells` array.
pub fn render_notebook(display_path: &str, notebook: &JsonValue) -> (r: Result<String, ToolError>)
    ensures
        match notebook_text(display_path@, *notebook) {
            Some(t) => r matches Ok(x) && x@ == t,
            None => r matches Err(ToolError::ExecutionFailed(m)) && m@ == MSG_MISSING_CELLS@,
        },
{
    let cells = match notebook.get("cells") {
        Some(JsonValue::Array(cells)) => cells,
        _ => return Err(ToolError::ExecutionFailed(String::from_str(MSG_MISSING_CELLS))),
    };
    let mut out: Vec<Vec<char>> = Vec::new();
    let mut title = cat("# Notebook: ", chars_of(display_path).as_slice());
    let nl = chars_of("\n");
    title.extend_from_slice(nl.as_slice());
    assert(title@ == "# Notebook: "@ + display_path@ + "\n"@);
    assert(rows(out@) =~= Seq::<Seq<char>>::empty());
    push_piece(&mut out, title);
    let ghost first = rows(out@);
    proof {
        assert(first.len() == 1);
        assert(first[0] == title@);
        assert(first =~= seq!["# Notebook: "@ + display_path@ + "\n"@]);
    }
    let mut i: usize = 0;
    while i < cells.len()
        invariant
            i <= cells@.len(),
            rows(out@) == first + cells_pieces(cells@, i as nat),
        decreases cells@.len() - i,
    {
        cell_pieces_of(i, &cells[i], &mut out);
        proof {
            assert(first + cells_pieces(cells@, i as nat) + cell_pieces(i as nat, cells@[i as int]) =~= first
                + cells_pieces(cells@, (i + 1) as nat));
        }
        i = i + 1;
    }
    let sep = chars_of("\n");
    let joined = join_chars(&out, sep.as_slice());
    Ok(string_from(joined.as_slice()))
}

/// How the tool reads a file.
#[derive(Debug, Clone, Copy, PartialEq, Eq, Structural)]
pub enum ReadKind {
    Image,
    Pdf,
    Notebook,
    Text,
}

/// How a path is read: as an image, a PDF file, a notebook, else as text.
pub open spec fn read_kind(p: Seq<char>) -> ReadKind {
    if is_image_path(p) {
        ReadKind::Image
    } else if is_pdf_path(p) {
        ReadKind::Pdf
    } else if is_notebook_path(p) {
        ReadKind::Notebook
    } else {
        ReadKind::Text
    }
}

/// A member holding an unsigned 64-bit integer.
pub open spec fn u64_member(params: JsonValue, key: Seq<char>) -> Option<nat> {
    match member(params, key) {
        Some(JsonValue::Number(t)) => crate::json::number_u64(t@),
        _ => None,
    }
}

/// The line range asked for by `start_line` and `end_line` (a missing start
/// is line 1; no range when neither is given).
pub open spec fn line_range_param(params: JsonValue) -> Option<LineRange> {
    match (u64_member(params, "start_line"@), u64_member(params, "end_line"@)) {
        (Some(a), e) => Some(LineRange {
            start: a as usize,
            end: match e {
                Some(b) => Some(b as usize),
                None => None,
            },
        }),
        (None, Some(b)) => Some(LineRange { start: 1, end: Some(b as usize) }),
        (None, None) => None,
    }
}

fn u64_member_of(params: &JsonValue, key: &str) -> (r: Option<u64>)
    ensures
        match r {
            Some(n) => u64_member(*params, key@) == Some(n as nat),
            None => u64_member(*params, key@) is None,
        },
{
    match params.get(key) {
        Some(v) => v.as_u64(),
        None => None,
    }
}

/// The line range asked for in the tool's parameters.
pub fn extract_line_range(params: &JsonValue) -> (r: Option<LineRange>)
    ensures
        r == line_range_param(*params),
{
    let start = u64_member_of(params, "start_line");
    let end = u64_member_of(params, "end_line");
    match (start, end) {
        (Some(a), e) => Some(LineRange::new(a as usize, match e {
            Some(b) => Some(b as usize),
            None => None,
        })),
        (None, Some(b)) => Some(LineRange::new(1, Some(b as usize))),
        (None, None) => None,
    }
}

/// What a call of the tool reads: the path, how, and for text the lines.
#[derive(Debug)]
pub struct ReadPlan {
    pub path: String,
    pub kind: ReadKind,
    pub range: Option<LineRange>,
}

pub const MSG_MISSING_PATH: &'static str = "Missing required parameter: path";

/// Decides what a call of the tool reads: refused when the call was
/// cancelled or names no `path`; the kind by the path's extension, and a line
/// range for text.
pub fn plan_read(params: &JsonValue, context: &crate::tool::ToolContext) -> (r: Result<ReadPlan, ToolError>)
    ensures
        context.cancelled ==> r == Err::<ReadPlan, ToolError>(ToolError::Cancelled),
        !context.cancelled ==> match member(*params, "path"@) {
            Some(JsonValue::String(p)) => r matches Ok(plan) && plan.path@ == p@ && plan.kind == read_kind(p@)
                && plan.range == (if read_kind(p@) == ReadKind::Text { line_range_param(*params) } else { None }),
            _ => r matches Err(ToolError::InvalidParams(m)) && m@ == MSG_MISSING_PATH@,
        },
{
    if context.cancelled {
        return Err(ToolError::Cancelled);
    }
    let path = match params.get("path") {
        Some(JsonValue::String(p)) => p,
        _ => return Err(ToolError::InvalidParams(String::from_str(MSG_MISSING_PATH))),
    };
    let kind = if ReadTool::is_image_file(path.as_str()) {
        ReadKind::Image
    } else if ReadTool::is_pdf_file(path.as_str()) {
        ReadKind::Pdf
    } else if ReadTool::is_notebook_file(path.as_str()) {
        ReadKind::Notebook
    } else {
        ReadKind::Text
    };
    let range = match kind {
        ReadKind::Text => extract_line_range(params),
        _ => None,
    };
    Ok(ReadPlan { path: path.clone(), kind, range })
}

/// The word the tool's result gives for a kind of file.
pub open spec fn kind_word(k: ReadKind) -> Seq<char> {
    match k {
        ReadKind::Image => "image"@,
        ReadKind::Pdf => "pdf"@,
        ReadKind::Notebook => "notebook"@,
        ReadKind::Text => "text"@,
    }
}

/// The tool's result: the content read, and the kind of file as `file_type`.
pub fn read_tool_result(kind: ReadKind, content: &str) -> (r: ToolResult)
    ensures
        r.success,
        r.error is None,
        r.output matches Some(o) && o@ == content@,
        crate::tool::metadata_value(r.metadata@, "file_type"@) matches Some(JsonValue::String(t)) && t@ == kind_word(kind),
{
    let word = match kind {
        ReadKind::Image => "image",
        ReadKind::Pdf => "pdf",
        ReadKind::Notebook => "notebook",
        ReadKind::Text => "text",
    };
    ToolResult::success(content).with_metadata("file_type", crate::json::json_str(word))
}

impl ReadTool {
    /// A tool with this read history; PDF reading is off.
    pub fn new(read_history: FileReadHistory) -> (r: Self)
        ensures
            r.history().records() == read_history.records(),
            !r.pdf_enabled(),
    {
        ReadTool { read_history, pdf_enabled: false }
    }

    /// The same tool with PDF reading switched on or off.
    pub fn with_pdf_enabled(self, enabled: bool) -> (r: Self)
        ensures
            r.history().records() == self.history().records(),
            r.pdf_enabled() == enabled,
    {
        ReadTool { read_history: self.read_history, pdf_enabled: enabled }
    }

    /// The read history.
    pub closed spec fn history(&self) -> FileReadHistory {
        self.read_history
    }

    /// Whether PDF reading is on.
    pub closed spec fn pdf_enabled(&self) -> bool {
        self.pdf_enabled
    }

    /// The read history.
    pub fn read_history(&self) -> (r: &FileReadHistory)
        ensures
            r.records() == self.history().records(),
    {
        &self.read_history
    }

    /// Records a read in the tool's history.
    pub fn record_read(&mut self, record: FileReadRecord)
        ensures
            final(self).pdf_enabled() == old(self).pdf_enabled(),
            record_for(final(self).history().records(), record.path@) == Some(record),
            forall|p: Seq<char>| p != record.path@ ==> record_for(final(self).history().records(), p) == record_for(
                old(self).history().records(),
                p,
            ),
    {
        self.read_history.record_read(record);
    }

    /// Refuses to read a PDF file while PDF reading is off.
    pub fn check_pdf_enabled(&self) -> (r: Result<(), ToolError>)
        ensures
            self.pdf_enabled() ==> r is Ok,
            !self.pdf_enabled() ==> (r matches Err(ToolError::ExecutionFailed(m)) && m@ == MSG_PDF_DISABLED@),
    {
        if self.pdf_enabled {
            Ok(())
        } else {
            Err(ToolError::ExecutionFailed(String::from_str(MSG_PDF_DISABLED)))
        }
    }

    /// The tool's name.
    pub fn name(&self) -> (r: &'static str)
        ensures
            r@ == "read"@,
    {
        "read"
    }

    /// The tool's description.
    pub fn description(&self) -> (r: &'static str)
        ensures
            r@ == READ_TOOL_DESCRIPTION@,
    {
        READ_TOOL_DESCRIPTION
    }

    /// Reads are retried once and time out after thirty seconds.
    pub fn options(&self) -> (r: ToolOptions)
        ensures
            r.max_retries == 1,
            r.base_timeout_secs == 30,
            r.enable_dynamic_timeout,
    {
        ToolOptions::new().with_max_retries(1).with_base_timeout_secs(30)
    }

    /// Every read with a `path` is allowed; one without is denied.
    pub fn check_permissions(&self, params: &JsonValue) -> (r: PermissionCheckResult)
        ensures
            member(*params, "path"@) matches Some(JsonValue::String(_)) ==> r.behavior == crate::tool::PermissionBehavior::Allow,
            !(member(*params, "path"@) matches Some(JsonValue::String(_))) ==> r.behavior == crate::tool::PermissionBehavior::Deny
                && (r.message matches Some(m) && m@ == "Missing path parameter"@),
    {
        match params.get("path") {
            Some(JsonValue::String(_)) => PermissionCheckResult::allow(),
            _ => PermissionCheckResult::deny("Missing path parameter"),
        }
    }

    /// The JSON schema of the tool's input: `path` (required), `start_line`
    /// and `end_line`.
    pub fn input_schema(&self) -> (r: JsonValue)
        ensures
            r matches JsonValue::Object(es) && {
                &&& es@.len() == 3
                &&& es@[0].0@ == "type"@
                &&& (es@[0].1 matches JsonValue::String(t) && t@ == "object"@)
                &&& es@[1].0@ == "properties"@
                &&& (es@[1].1 matches JsonValue::Object(ps) && {
                    &&& ps@.len() == 3
                    &&& ps@[0].0@ == "path"@ && ps@[0].1 is Object
                    &&& ps@[1].0@ == "start_line"@ && ps@[1].1 is Object
                    &&& ps@[2].0@ == "end_line"@ && ps@[2].1 is Object
                })
                &&& es@[2].0@ == "required"@
                &&& (es@[2].1 matches JsonValue::Array(rs) && rs@.len() == 1 && (rs@[0] matches JsonValue::String(k) && k@ == "path"@))
            },
    {
        let path = JsonValue::Object(vec![
            (String::from_str("type"), crate::json::json_str("string")),
            (String::from_str("description"), crate::json::json_str("Path to the file to read (relative to working directory or absolute)")),
        ]);
        let start = JsonValue::Object(vec![
            (String::from_str("type"), crate::json::json_str("integer")),
            (String::from_str("description"), crate::json::json_str("Start line number (1-indexed, for text files only)")),
            (String::from_str("minimum"), JsonValue::Number(String::from_str("1"))),
        ]);
        let end = JsonValue::Object(vec![
            (String::from_str("type"), crate::json::json_str("integer")),
            (String::from_str("description"), crate::json::json_str("End line number (1-indexed, inclusive, for text files only)")),
            (String::from_str("minimum"), JsonValue::Number(String::from_str("1"))),
        ]);
        JsonValue::Object(vec![
            (String::from_str("type"), crate::json::json_str("object")),
            (String::from_str("properties"), JsonValue::Object(vec![
                (String::from_str("path"), path),
                (String::from_str("start_line"), start),
                (String::from_str("end_line"), end),
            ])),
            (String::from_str("required"), JsonValue::Array(vec![crate::json::json_str("path")])),
        ])
    }
}

/// The tool's description.
pub const READ_TOOL_DESCRIPTION: &'static str = "Read file contents. Supports text files (with line numbers), images (base64), \
     PDF files (optional), and Jupyter notebooks. Automatically detects file type \
     based on extension.";




/// An extension read as an image, a PDF file or a notebook is not one of the
/// text extensions.
proof fn lemma_not_text_extension(e: Seq<char>)
    requires
        image_extensions().contains(e) || e == "pdf"@ || e == "ipynb"@,
    ensures
        !text_extensions().contains(e),
{
    reveal_strlit("txt");
    reveal_strlit("md");
    reveal_strlit("rs");
    reveal_strlit("py");
    reveal_strlit("js");
    reveal_strlit("ts");
    reveal_strlit("jsx");
    reveal_strlit("tsx");
    reveal_strlit("json");
    reveal_strlit("yaml");
    reveal_strlit("yml");
    reveal_strlit("toml");
    reveal_strlit("xml");
    reveal_strlit("html");
    reveal_strlit("css");
    reveal_strlit("scss");
    reveal_strlit("less");
    reveal_strlit("sql");
    reveal_strlit("sh");
    reveal_strlit("bash");
    reveal_strlit("zsh");
    reveal_strlit("c");
    reveal_strlit("cpp");
    reveal_strlit("h");
    reveal_strlit("hpp");
    reveal_strlit("java");
    reveal_strlit("go");
    reveal_strlit("rb");
    reveal_strlit("php");
    reveal_strlit("swift");
    reveal_strlit("kt");
    reveal_strlit("scala");
    reveal_strlit("r");
    reveal_strlit("lua");
    reveal_strlit("pl");
    reveal_strlit("pm");
    reveal_strlit("ex");
    reveal_strlit("exs");
    reveal_strlit("erl");
    reveal_strlit("hrl");
    reveal_strlit("hs");
    reveal_strlit("ml");
    reveal_strlit("mli");
    reveal_strlit("fs");
    reveal_strlit("fsx");
    reveal_strlit("clj");
    reveal_strlit("cljs");
    reveal_strlit("lisp");
    reveal_strlit("el");
    reveal_strlit("vim");
    reveal_strlit("conf");
    reveal_strlit("ini");
    reveal_strlit("cfg");
    reveal_strlit("env");
    reveal_strlit("gitignore");
    reveal_strlit("dockerignore");
    reveal_strlit("makefile");
    reveal_strlit("cmake");
    reveal_strlit("gradle");
    reveal_strlit("png");
    reveal_strlit("jpg");
    reveal_strlit("jpeg");
    reveal_strlit("gif");
    reveal_strlit("webp");
    reveal_strlit("bmp");
    reveal_strlit("ico");
    reveal_strlit("svg");
    reveal_strlit("pdf");
    reveal_strlit("ipynb");
    let ts = text_extensions();
    let is = image_extensions();
    if is.contains(e) {
        let j = choose|j: int| 0 <= j < is.len() && is[j] == e;
        if j == 0 {
            assert(is[0] == "png"@);
        }
        if j == 1 {
            assert(is[1] == "jpg"@);
        }
        if j == 2 {
            assert(is[2] == "jpeg"@);
        }
        if j == 3 {
            assert(is[3] == "gif"@);
        }
        if j == 4 {
            assert(is[4] == "webp"@);
        }
        if j == 5 {
            assert(is[5] == "bmp"@);
        }
        if j == 6 {
            assert(is[6] == "ico"@);
        }
        if j == 7 {
            assert(is[7] == "svg"@);
        }
    }
    assert(e == "png"@ || e == "jpg"@ || e == "jpeg"@ || e == "gif"@ || e == "webp"@ || e == "bmp"@ || e == "ico"@ || e == "svg"@ || e == "pdf"@ || e == "ipynb"@);
    assert(ts.len() == 59);
    assert forall|i: int| 0 <= i < ts.len() implies ts[i] != e by {
        if i == 0 { assert(ts[0] == "txt"@); }
        if i == 1 { assert(ts[1] == "md"@); }
        if i == 2 { assert(ts[2] == "rs"@); }
        if i == 3 { assert(ts[3] == "py"@); }
        if i == 4 { assert(ts[4] == "js"@); }
        if i == 5 { assert(ts[5] == "ts"@); }
        if i == 6 { assert(ts[6] == "jsx"@); }
        if i == 7 { assert(ts[7] == "tsx"@); }
        if i == 8 { assert(ts[8] == "json"@); }
        if i == 9 { assert(ts[9] == "yaml"@); }
        if i == 10 { assert(ts[10] == "yml"@); }
        if i == 11 { assert(ts[11] == "toml"@); }
        if i == 12 { assert(ts[12] == "xml"@); }
        if i == 13 { assert(ts[13] == "html"@); }
        if i == 14 { assert(ts[14] == "css"@); }
        if i == 15 { assert(ts[15] == "scss"@); }
        if i == 16 { assert(ts[16] == "less"@); }
        if i == 17 { assert(ts[17] == "sql"@); }
        if i == 18 { assert(ts[18] == "sh"@); }
        if i == 19 { assert(ts[19] == "bash"@); }
        if i == 20 { assert(ts[20] == "zsh"@); }
        if i == 21 { assert(ts[21] == "c"@); }
        if i == 22 { assert(ts[22] == "cpp"@); }
        if i == 23 { assert(ts[23] == "h"@); }
        if i == 24 { assert(ts[24] == "hpp"@); }
        if i == 25 { assert(ts[25] == "java"@); }
        if i == 26 { assert(ts[26] == "go"@); }
        if i == 27 { assert(ts[27] == "rb"@); }
        if i == 28 { assert(ts[28] == "php"@); }
        if i == 29 { assert(ts[29] == "swift"@); }
        if i == 30 { assert(ts[30] == "kt"@); }
        if i == 31 { assert(ts[31] == "scala"@); }
        if i == 32 { assert(ts[32] == "r"@); }
        if i == 33 { assert(ts[33] == "lua"@); }
        if i == 34 { assert(ts[34] == "pl"@); }
        if i == 35 { assert(ts[35] == "pm"@); }
        if i == 36 { assert(ts[36] == "ex"@); }
        if i == 37 { assert(ts[37] == "exs"@); }
        if i == 38 { assert(ts[38] == "erl"@); }
        if i == 39 { assert(ts[39] == "hrl"@); }
        if i == 40 { assert(ts[40] == "hs"@); }
        if i == 41 { assert(ts[41] == "ml"@); }
        if i == 42 { assert(ts[42] == "mli"@); }
        if i == 43 { assert(ts[43] == "fs"@); }
        if i == 44 { assert(ts[44] == "fsx"@); }
        if i == 45 { assert(ts[45] == "clj"@); }
        if i == 46 { assert(ts[46] == "cljs"@); }
        if i == 47 { assert(ts[47] == "lisp"@); }
        if i == 48 { assert(ts[48] == "el"@); }
        if i == 49 { assert(ts[49] == "vim"@); }
        if i == 50 { assert(ts[50] == "conf"@); }
        if i == 51 { assert(ts[51] == "ini"@); }
        if i == 52 { assert(ts[52] == "cfg"@); }
        if i == 53 { assert(ts[53] == "env"@); }
        if i == 54 { assert(ts[54] == "gitignore"@); }
        if i == 55 { assert(ts[55] == "dockerignore"@); }
        if i == 56 { assert(ts[56] == "makefile"@); }
        if i == 57 { assert(ts[57] == "cmake"@); }
        if i == 58 { assert(ts[58] == "gradle"@); }
        if ts[i] == e {
            assert(ts[i].len() == e.len() && ts[i][0] == e[0] && ts[i][1] == e[1] && ts[i][2] == e[2]);
        }
    }
}

/// The tool reads as text exactly the files it does not read as images, PDF
/// files or notebooks.
pub proof fn lemma_text_files_are_the_rest(p: Seq<char>)
    ensures
        is_text_path(p) <==> !(is_image_path(p) || is_pdf_path(p) || is_notebook_path(p)),
{
    match lower_extension(p) {
        Some(e) => {
            if image_extensions().contains(e) || e == "pdf"@ || e == "ipynb"@ {
                lemma_not_text_extension(e);
            }
        },
        None => {},
    }
}


} // verus!
