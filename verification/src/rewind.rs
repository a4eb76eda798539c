//! File history and rewinding: which files are tracked, the backups taken
//! before each user message, and what rewinding to a message changes.
//!
//! The file system stays outside: callers report what they found on disk
//! (whether a file exists, its content, its line count) and carry out the
//! deletions and restorations that rewinding decides.

use vstd::prelude::*;
use sha2::{Digest, Sha256};
use crate::text::{chars_of, string_from, eq_chars, rfind_char_before, rfind_char_upto, slice_range};
use crate::read::{file_name, extension, path_file_name, path_extension};

verus! {

/// Path joining as `PathBuf::push` does it on Unix: an absolute component
/// replaces the path, otherwise it is appended after one `/`.
pub open spec fn path_join(base: Seq<char>, comp: Seq<char>) -> Seq<char> {
    if comp.len() > 0 && comp[0] == '/' {
        comp
    } else if base.len() == 0 {
        comp
    } else if base.last() == '/' {
        base + comp
    } else {
        base + "/"@ + comp
    }
}

/// `base` joined with `comp`.
pub fn join_path(base: &str, comp: &str) -> (r: String)
    ensures
        r@ == path_join(base@, comp@),
{
    let b = chars_of(base);
    let c = chars_of(comp);
    if c.len() > 0 && c[0] == '/' {
        return String::from_str(comp);
    }
    if b.len() == 0 {
        return String::from_str(comp);
    }
    let mut r = String::from_str(base);
    if b[b.len() - 1] != '/' {
        r.append("/");
    }
    r.append(comp);
    r
}

/// A path made absolute against the working directory, when there is one.
pub open spec fn normalized_path(p: Seq<char>, cwd: Option<Seq<char>>) -> Seq<char> {
    if p.len() > 0 && p[0] == '/' {
        p
    } else {
        match cwd {
            Some(c) => path_join(c, p),
            None => p,
        }
    }
}

/// `path`, absolute or joined to the working directory `cwd` (left as it is
/// when the working directory is unknown).
pub fn normalize_path(path: &str, cwd: Option<&str>) -> (r: String)
    ensures
        r@ == normalized_path(path@, match cwd {
            Some(c) => Some(c@),
            None => None,
        }),
{
    let v = chars_of(path);
    if v.len() > 0 && v[0] == '/' {
        return String::from_str(path);
    }
    match cwd {
        Some(c) => join_path(c, path),
        None => String::from_str(path),
    }
}

/// The file name without its extension (`Path::file_stem`).
pub open spec fn file_stem(p: Seq<char>) -> Option<Seq<char>> {
    match file_name(p) {
        None => None,
        Some(f) => match rfind_char_before(f, '.', f.len() as int) {
            None => Some(f),
            Some(i) => if i == 0 {
                Some(f)
            } else {
                Some(f.take(i))
            },
        },
    }
}

fn path_file_stem(p: &str) -> (r: Option<String>)
    ensures
        match r {
            Some(s) => file_stem(p@) == Some(s@),
            None => file_stem(p@) is None,
        },
{
    let f = match path_file_name(p) {
        None => return None,
        Some(f) => f,
    };
    let fv = chars_of(f.as_str());
    match rfind_char_upto(fv.as_slice(), '.', fv.len()) {
        None => Some(f),
        Some(i) => if i == 0 {
            Some(f)
        } else {
            let s = slice_range(fv.as_slice(), 0, i);
            proof {
                assert(s@ =~= f@.take(i as int));
            }
            Some(string_from(s.as_slice()))
        },
    }
}

/// The lowercase hexadecimal SHA-256 digest of the bytes.
pub uninterp spec fn sha256_hex(bytes: Seq<u8>) -> Seq<char>;

/// A lowercase hexadecimal digit.
pub open spec fn is_hex_digit(c: char) -> bool {
    ('0' <= c && c <= '9') || ('a' <= c && c <= 'f')
}

/// `Sha256::digest` printed with `{:x}`: the digest's 32 bytes as 64 lowercase
/// hexadecimal digits.
#[verifier::external_body]
fn compute_hash(bytes: &[u8]) -> (r: String)
    ensures
        r@ == sha256_hex(bytes@),
        r@.len() == 64,
        forall|i: int| 0 <= i < r@.len() ==> is_hex_digit(#[trigger] r@[i]),
{
    format!("{:x}", Sha256::digest(bytes))
}

/// The name a backup of `path` gets: the file's stem (or `file`), `_`, the
/// first eight digits of the content's hash, and the file's extension if it
/// has one.
pub open spec fn backup_file_name(path: Seq<char>, hash: Seq<char>) -> Seq<char> {
    let name = match file_stem(path) {
        Some(s) => s,
        None => "file"@,
    };
    let ext = match extension(path) {
        Some(e) => e,
        None => Seq::empty(),
    };
    if ext.len() == 0 {
        name + "_"@ + hash.take(8)
    } else {
        name + "_"@ + hash.take(8) + "."@ + ext
    }
}

fn generate_backup_file_name(path: &str, hash: &str) -> (r: String)
    requires
        hash@.len() >= 8,
    ensures
        r@ == backup_file_name(path@, hash@),
{
    let mut r = match path_file_stem(path) {
        Some(s) => s,
        None => String::from_str("file"),
    };
    let ext = match path_extension(path) {
        Some(e) => e,
        None => String::new(),
    };
    let h = chars_of(hash);
    let h8 = slice_range(h.as_slice(), 0, 8);
    let h8s = string_from(h8.as_slice());
    proof {
        assert(h8@ =~= hash@.take(8));
    }
    r.append("_");
    r.append(h8s.as_str());
    if !ext.as_str().is_empty() {
        r.append(".");
        r.append(ext.as_str());
    }
    r
}

/// What was kept of a file before a change.
#[derive(Debug, Clone)]
pub struct FileBackup {
    /// The backup's file name (none when the file did not exist)
    pub backup_file_name: Option<String>,
    /// The file's modification time, in seconds since the Unix epoch
    pub mtime: u64,
    pub version: u32,
    /// The content's SHA-256 hash
    pub hash: Option<String>,
}

/// The backups taken for one user message.
#[derive(Debug)]
pub struct FileSnapshot {
    pub message_id: String,
    /// When it was taken, in seconds since the Unix epoch
    pub timestamp: i64,
    /// One backup per tracked file
    pub tracked_file_backups: Vec<(String, FileBackup)>,
}

/// The backup a snapshot holds for `path` (its last entry for it).
pub open spec fn backup_for(entries: Seq<(String, FileBackup)>, path: Seq<char>) -> Option<FileBackup>
    decreases entries.len(),
{
    if entries.len() == 0 {
        None
    } else if entries.last().0@ == path {
        Some(entries.last().1)
    } else {
        backup_for(entries.drop_last(), path)
    }
}

/// What a caller found when it looked at a file before a change.
pub enum FileObservation {
    /// The file does not exist
    Missing,
    /// The file exists but its content or modification time could not be read
    Unreadable,
    /// The file's content and modification time
    Present { content: Vec<u8>, mtime: u64 },
}

/// The outcome of a rewind.
#[derive(Debug)]
pub struct RewindResult {
    pub success: bool,
    pub files_changed: Vec<String>,
    pub insertions: u32,
    pub deletions: u32,
    pub error: Option<String>,
}

/// The texts of a list of strings.
pub open spec fn texts(v: Seq<String>) -> Seq<Seq<char>> {
    v.map_values(|s: String| s@)
}

impl RewindResult {
    /// A successful rewind that changed these files.
    pub fn success(files_changed: Vec<String>, insertions: u32, deletions: u32) -> (r: Self)
        ensures
            r.success,
            r.files_changed == files_changed,
            r.insertions == insertions,
            r.deletions == deletions,
            r.error is None,
    {
        RewindResult { success: true, files_changed, insertions, deletions, error: None }
    }

    /// A failed rewind.
    pub fn error(msg: &str) -> (r: Self)
        ensures
            !r.success,
            r.files_changed@.len() == 0,
            r.insertions == 0,
            r.deletions == 0,
            r.error matches Some(e) && e@ == msg@,
    {
        RewindResult { success: false, files_changed: Vec::new(), insertions: 0, deletions: 0, error: Some(String::from_str(msg)) }
    }
}

/// Whether the list holds the text `k`.
pub fn contains_text(v: &Vec<String>, k: &str) -> (r: bool)
    ensures
        r == texts(v@).contains(k@),
{
    let kc = chars_of(k);
    let ghost t = texts(v@);
    let mut i: usize = 0;
    while i < v.len()
        invariant
            i <= v@.len(),
            t == texts(v@),
            kc@ == k@,
            forall|j: int| 0 <= j < i ==> t[j] != k@,
        decreases v@.len() - i,
    {
        let c = chars_of(v[i].as_str());
        if eq_chars(c.as_slice(), kc.as_slice()) {
            proof {
                assert(t[i as int] == k@);
            }
            return true;
        }
        i = i + 1;
    }
    false
}

/// The tracked files, the snapshots taken so far, and where backups go.
pub struct FileHistoryManager {
    session_id: String,
    tracked_files: Vec<String>,
    snapshots: Vec<FileSnapshot>,
    backup_dir: String,
    enabled: bool,
}

/// No text occurs twice.
pub open spec fn no_duplicates(s: Seq<Seq<char>>) -> bool {
    forall|i: int, j: int| 0 <= i < j < s.len() ==> s[i] != s[j]
}

/// The last snapshot taken for a message.
pub open spec fn latest_snapshot(snaps: Seq<FileSnapshot>, message_id: Seq<char>) -> Option<int>
    decreases snaps.len(),
{
    if snaps.len() == 0 {
        None
    } else if snaps.last().message_id@ == message_id {
        Some(snaps.len() - 1)
    } else {
        latest_snapshot(snaps.drop_last(), message_id)
    }
}

/// The directory where a session's backups go, under the configuration
/// directory (`~/.config` when there is none).
pub open spec fn backup_dir_for(config_dir: Option<Seq<char>>, session_id: Seq<char>) -> Seq<char> {
    path_join(path_join(path_join(match config_dir {
        Some(d) => d,
        None => "~/.config"@,
    }, "aster"@), "file-history"@), session_id)
}

impl FileHistoryManager {
    /// The tracked files, in the order they were first tracked.
    pub closed spec fn watched(&self) -> Seq<Seq<char>> {
        texts(self.tracked_files@)
    }

    /// The snapshots, oldest first.
    pub closed spec fn snapshots(&self) -> Seq<FileSnapshot> {
        self.snapshots@
    }

    /// Whether history is kept.
    pub closed spec fn enabled(&self) -> bool {
        self.enabled
    }

    /// Where backups go.
    pub closed spec fn backup_dir(&self) -> Seq<char> {
        self.backup_dir@
    }

    /// The session.
    pub closed spec fn session(&self) -> Seq<char> {
        self.session_id@
    }

    /// No file is tracked twice.
    pub open spec fn wf(&self) -> bool {
        no_duplicates(self.watched())
    }

    /// A manager for a session, tracking nothing yet, with its backups in
    /// `<config>/aster/file-history/<session>`; the caller creates that
    /// directory.
    pub fn new(session_id: &str, config_dir: Option<&str>) -> (r: Self)
        ensures
            r.wf(),
            r.session() == session_id@,
            r.watched().len() == 0,
            r.snapshots().len() == 0,
            r.enabled(),
            r.backup_dir() == backup_dir_for(match config_dir {
                Some(d) => Some(d@),
                None => None,
            }, session_id@),
    {
        let base = match config_dir {
            Some(d) => String::from_str(d),
            None => String::from_str("~/.config"),
        };
        let a = join_path(base.as_str(), "aster");
        let b = join_path(a.as_str(), "file-history");
        let dir = join_path(b.as_str(), session_id);
        let r = FileHistoryManager {
            session_id: String::from_str(session_id),
            tracked_files: Vec::new(),
            snapshots: Vec::new(),
            backup_dir: dir,
            enabled: true,
        };
        proof {
            assert(r.watched() =~= Seq::<Seq<char>>::empty());
        }
        r
    }

    /// Whether history is kept.
    pub fn is_enabled(&self) -> (r: bool)
        ensures
            r == self.enabled(),
    {
        self.enabled
    }

    /// Switches history on or off.
    pub fn set_enabled(&mut self, enabled: bool)
        ensures
            final(self).enabled() == enabled,
            final(self).watched() == old(self).watched(),
            final(self).snapshots() == old(self).snapshots(),
            final(self).backup_dir() == old(self).backup_dir(),
            final(self).session() == old(self).session(),
    {
        self.enabled = enabled;
    }

    fn insert_tracked(&mut self, path: String)
        ensures
            old(self).wf() ==> final(self).wf(),
            final(self).watched() == (if old(self).watched().contains(path@) {
                old(self).watched()
            } else {
                old(self).watched().push(path@)
            }),
            final(self).snapshots() == old(self).snapshots(),
            final(self).enabled() == old(self).enabled(),
            final(self).backup_dir() == old(self).backup_dir(),
            final(self).session() == old(self).session(),
    {
        if contains_text(&self.tracked_files, path.as_str()) {
            return;
        }
        let ghost t = self.watched();
        let ghost was_wf = self.wf();
        self.tracked_files.push(path);
        proof {
            assert(self.watched() =~= t.push(path@));
            if was_wf {
                assert forall|i: int, j: int| 0 <= i < j < self.watched().len() implies self.watched()[i]
                    != self.watched()[j] by {
                    if j == t.len() {
                        assert(t[i] == self.watched()[i]);
                    }
                }
            }
        }
    }

    /// Starts tracking a file (made absolute against `cwd`); nothing happens
    /// while history is off.
    pub fn track_file(&mut self, file_path: &str, cwd: Option<&str>)
        ensures
            old(self).wf() ==> final(self).wf(),
            final(self).snapshots() == old(self).snapshots(),
            final(self).enabled() == old(self).enabled(),
            final(self).backup_dir() == old(self).backup_dir(),
            final(self).session() == old(self).session(),
            !old(self).enabled() ==> final(self).watched() == old(self).watched(),
            old(self).enabled() ==> {
                let p = normalized_path(file_path@, match cwd {
                    Some(c) => Some(c@),
                    None => None,
                });
                final(self).watched() == if old(self).watched().contains(p) {
                    old(self).watched()
                } else {
                    old(self).watched().push(p)
                }
            },
    {
        if !self.enabled {
            return;
        }
        let p = normalize_path(file_path, cwd);
        self.insert_tracked(p);
    }

    /// Whether a file (made absolute against `cwd`) is tracked.
    pub fn is_tracked(&self, file_path: &str, cwd: Option<&str>) -> (r: bool)
        ensures
            r == self.watched().contains(normalized_path(file_path@, match cwd {
                Some(c) => Some(c@),
                None => None,
            })),
    {
        let p = normalize_path(file_path, cwd);
        contains_text(&self.tracked_files, p.as_str())
    }

    /// The lines a restore adds and removes, from the line counts of the
    /// current file and of its backup: what the backup has more, and what the
    /// current file has more (each 0 when the other is larger).
    pub fn calculate_diff(&self, current_lines: u32, backup_lines: u32) -> (r: (u32, u32))
        ensures
            r.0 as nat == sat_sub(backup_lines as nat, current_lines as nat),
            r.1 as nat == sat_sub(current_lines as nat, backup_lines as nat),
    {
        let insertions = if backup_lines >= current_lines { backup_lines - current_lines } else { 0 };
        let deletions = if current_lines >= backup_lines { current_lines - backup_lines } else { 0 };
        (insertions, deletions)
    }

    /// The path of a backup file.
    pub fn backup_path(&self, backup_name: &str) -> (r: String)
        ensures
            r@ == path_join(self.backup_dir(), backup_name@),
    {
        join_path(self.backup_dir.as_str(), backup_name)
    }

    /// Takes a backup of a file about to change, from what the caller found:
    /// none while history is off or when the file could not be read; an empty
    /// backup (version 1, no name, no hash) for a missing file; otherwise a
    /// backup named after the file and its content's hash, and the file is
    /// then tracked. The caller writes the content to `backup_path(name)` when
    /// no file is there yet.
    pub fn backup_file_before_change(&mut self, file_path: &str, cwd: Option<&str>, observed: &FileObservation) -> (r: Option<FileBackup>)
        ensures
            old(self).wf() ==> final(self).wf(),
            final(self).snapshots() == old(self).snapshots(),
            final(self).enabled() == old(self).enabled(),
            final(self).backup_dir() == old(self).backup_dir(),
            final(self).session() == old(self).session(),
            !old(self).enabled() ==> r is None && final(self).watched() == old(self).watched(),
            old(self).enabled() ==> match observed {
                FileObservation::Missing => final(self).watched() == old(self).watched() && (r matches Some(b)
                    && b.backup_file_name is None && b.mtime == 0 && b.version == 1 && b.hash is None),
                FileObservation::Unreadable => final(self).watched() == old(self).watched() && r is None,
                FileObservation::Present { content, mtime } => {
                    let p = normalized_path(file_path@, match cwd {
                        Some(c) => Some(c@),
                        None => None,
                    });
                    &&& final(self).watched() == if old(self).watched().contains(p) {
                        old(self).watched()
                    } else {
                        old(self).watched().push(p)
                    }
                    &&& r matches Some(b)
                    &&& b.hash matches Some(h) && h@ == sha256_hex(content@)
                    &&& b.backup_file_name matches Some(n) && n@ == backup_file_name(file_path@, sha256_hex(content@))
                    &&& b.mtime == mtime
                    &&& b.version == 1
                },
            },
    {
        if !self.enabled {
            return None;
        }
        match observed {
            FileObservation::Missing => Some(FileBackup { backup_file_name: None, mtime: 0, version: 1, hash: None }),
            FileObservation::Unreadable => None,
            FileObservation::Present { content, mtime } => {
                let normalized = normalize_path(file_path, cwd);
                let hash = compute_hash(content.as_slice());
                let name = generate_backup_file_name(file_path, hash.as_str());
                self.insert_tracked(normalized);
                Some(FileBackup { backup_file_name: Some(name), mtime: *mtime, version: 1, hash: Some(hash) })
            },
        }
    }

    /// Records the snapshot for a user message: the backups the caller took
    /// of every tracked file, at `timestamp`. Nothing happens while history is off.
    pub fn create_snapshot(&mut self, message_id: &str, timestamp: i64, backups: Vec<(String, FileBackup)>)
        ensures
            old(self).wf() ==> final(self).wf(),
            final(self).watched() == old(self).watched(),
            final(self).enabled() == old(self).enabled(),
            final(self).backup_dir() == old(self).backup_dir(),
            final(self).session() == old(self).session(),
            !old(self).enabled() ==> final(self).snapshots() == old(self).snapshots(),
            old(self).enabled() ==> final(self).snapshots().len() == old(self).snapshots().len() + 1
                && final(self).snapshots().drop_last() == old(self).snapshots()
                && final(self).snapshots().last().message_id@ == message_id@
                && final(self).snapshots().last().timestamp == timestamp
                && final(self).snapshots().last().tracked_file_backups == backups,
    {
        if !self.enabled {
            return;
        }
        let ghost before = self.snapshots@;
        self.snapshots.push(FileSnapshot { message_id: String::from_str(message_id), timestamp, tracked_file_backups: backups });
        proof {
            assert(self.snapshots@.drop_last() =~= before);
        }
    }

    /// Whether a snapshot was taken for the message.
    pub fn has_snapshot(&self, message_id: &str) -> (r: bool)
        ensures
            r == latest_snapshot(self.snapshots(), message_id@) is Some,
    {
        self.find_snapshot(message_id).is_some()
    }

    /// The last snapshot taken for the message.
    pub fn find_snapshot(&self, message_id: &str) -> (r: Option<usize>)
        ensures
            match r {
                Some(i) => latest_snapshot(self.snapshots(), message_id@) == Some(i as int) && i < self.snapshots().len(),
                None => latest_snapshot(self.snapshots(), message_id@) is None,
            },
    {
        let k = chars_of(message_id);
        let mut i = self.snapshots.len();
        proof {
            assert(self.snapshots@.take(i as int) =~= self.snapshots@);
        }
        while i > 0
            invariant
                i <= self.snapshots@.len(),
                k@ == message_id@,
                latest_snapshot(self.snapshots@.take(i as int), message_id@) == latest_snapshot(self.snapshots@, message_id@),
            decreases i,
        {
            proof {
                assert(self.snapshots@.take(i as int).drop_last() =~= self.snapshots@.take(i - 1));
                assert(self.snapshots@.take(i as int).last() == self.snapshots@[i - 1]);
            }
            let c = chars_of(self.snapshots[i - 1].message_id.as_str());
            if eq_chars(c.as_slice(), k.as_slice()) {
                return Some(i - 1);
            }
            i = i - 1;
        }
        None
    }

    /// The snapshots, oldest first.
    pub fn get_snapshots(&self) -> (r: &[FileSnapshot])
        ensures
            r@ == self.snapshots(),
    {
        self.snapshots.as_slice()
    }

    /// The number of tracked files.
    pub fn get_tracked_files_count(&self) -> (r: usize)
        ensures
            r == self.watched().len(),
    {
        self.tracked_files.len()
    }

    /// The number of snapshots.
    pub fn get_snapshots_count(&self) -> (r: usize)
        ensures
            r == self.snapshots().len(),
    {
        self.snapshots.len()
    }

    /// The tracked files, in the order they were first tracked.
    pub fn tracked_files(&self) -> (r: &Vec<String>)
        ensures
            texts(r@) == self.watched(),
    {
        &self.tracked_files
    }

    /// Where backups go (the caller removes it to clean up).
    pub fn get_backup_dir(&self) -> (r: &str)
        ensures
            r@ == self.backup_dir(),
    {
        self.backup_dir.as_str()
    }
}

/// What a caller found about a tracked file and about its backup: whether
/// each exists, and how many lines each has (0 when it cannot be read as text).
#[derive(Debug, Clone, Copy)]
pub struct FileFacts {
    pub exists: bool,
    pub lines: u32,
    pub backup_exists: bool,
    pub backup_lines: u32,
}

/// What rewinding asks the caller to do to a file.
#[derive(Debug)]
pub enum RewindAction {
    /// Remove the file: it did not exist when the snapshot was taken
    Delete(String),
    /// Put the backup's content back in the file
    Restore { path: String, backup: String },
}

/// `a - b`, or 0 when `b` is larger.
pub open spec fn sat_sub(a: nat, b: nat) -> nat {
    if a >= b {
        (a - b) as nat
    } else {
        0
    }
}

/// What rewinding does to one tracked file: `None` when it leaves it alone,
/// else the lines it adds and removes and whether it deletes the file (rather
/// than restoring it). A file without backup in the snapshot is left alone; one
/// that did not exist then is deleted if it exists now; one whose backup is
/// gone is left alone; otherwise it is restored when its line count differs
/// from its backup's.
pub open spec fn file_change(entries: Seq<(String, FileBackup)>, path: Seq<char>, f: FileFacts) -> Option<(nat, nat, bool)> {
    match backup_for(entries, path) {
        None => None,
        Some(b) => match b.backup_file_name {
            None => if f.exists {
                Some((0, f.lines as nat, true))
            } else {
                None
            },
            Some(_) => if !f.backup_exists {
                None
            } else {
                let ins = sat_sub(f.backup_lines as nat, f.lines as nat);
                let del = sat_sub(f.lines as nat, f.backup_lines as nat);
                if ins > 0 || del > 0 {
                    Some((ins, del, false))
                } else {
                    None
                }
            },
        },
    }
}

/// The files changed and the lines added and removed by rewinding the first
/// `n` files.
pub open spec fn rewind_totals(paths: Seq<Seq<char>>, entries: Seq<(String, FileBackup)>, facts: Seq<FileFacts>, n: nat) -> (Seq<Seq<char>>, nat, nat)
    decreases n,
{
    if n == 0 || n > paths.len() || n > facts.len() {
        (seq![], 0, 0)
    } else {
        let (c, i, d) = rewind_totals(paths, entries, facts, (n - 1) as nat);
        match file_change(entries, paths[n - 1], facts[n - 1]) {
            Some((ins, del, _)) => (c.push(paths[n - 1]), i + ins, d + del),
            None => (c, i, d),
        }
    }
}

/// An action as plain text.
pub enum ActionView {
    Delete(Seq<char>),
    Restore(Seq<char>, Seq<char>),
}

impl View for RewindAction {
    type V = ActionView;

    open spec fn view(&self) -> ActionView {
        match self {
            RewindAction::Delete(p) => ActionView::Delete(p@),
            RewindAction::Restore { path, backup } => ActionView::Restore(path@, backup@),
        }
    }
}

/// The actions rewinding the first `n` files asks for.
pub open spec fn rewind_actions(paths: Seq<Seq<char>>, entries: Seq<(String, FileBackup)>, facts: Seq<FileFacts>, dir: Seq<char>, n: nat) -> Seq<ActionView>
    decreases n,
{
    if n == 0 || n > paths.len() || n > facts.len() {
        seq![]
    } else {
        let r = rewind_actions(paths, entries, facts, dir, (n - 1) as nat);
        match file_change(entries, paths[n - 1], facts[n - 1]) {
            Some((_, _, true)) => r.push(ActionView::Delete(paths[n - 1])),
            Some((_, _, false)) => r.push(ActionView::Restore(paths[n - 1], path_join(dir, backup_for(entries, paths[n - 1])->0.backup_file_name->0@))),
            None => r,
        }
    }
}

proof fn lemma_totals_grow(paths: Seq<Seq<char>>, entries: Seq<(String, FileBackup)>, facts: Seq<FileFacts>, k: nat, n: nat)
    requires
        k <= n <= paths.len(),
        n <= facts.len(),
    ensures
        rewind_totals(paths, entries, facts, k).1 <= rewind_totals(paths, entries, facts, n).1,
        rewind_totals(paths, entries, facts, k).2 <= rewind_totals(paths, entries, facts, n).2,
    decreases n - k,
{
    if k < n {
        lemma_totals_grow(paths, entries, facts, k + 1, n);
    }
}

pub const MSG_HISTORY_DISABLED: &'static str = "文件历史已禁用";

/// The message of a rewind to a message that has no snapshot.
pub open spec fn no_snapshot_message(message_id: Seq<char>) -> Seq<char> {
    "未找到消息 "@ + message_id + " 的快照"@
}

/// The counts of a rewind fit the result's 32-bit fields.
pub open spec fn totals_fit(paths: Seq<Seq<char>>, entries: Seq<(String, FileBackup)>, facts: Seq<FileFacts>) -> bool {
    rewind_totals(paths, entries, facts, paths.len()).1 <= u32::MAX
        && rewind_totals(paths, entries, facts, paths.len()).2 <= u32::MAX
}

/// A rewind's outcome as plain values.
pub struct RewindView {
    pub success: bool,
    pub files_changed: Seq<Seq<char>>,
    pub insertions: nat,
    pub deletions: nat,
    pub error: Option<Seq<char>>,
}

/// The outcome of a rewind result.
pub open spec fn result_view(r: RewindResult) -> RewindView {
    RewindView {
        success: r.success,
        files_changed: texts(r.files_changed@),
        insertions: r.insertions as nat,
        deletions: r.deletions as nat,
        error: match r.error {
            Some(e) => Some(e@),
            None => None,
        },
    }
}

/// A failed rewind with this message.
pub open spec fn failed_rewind(msg: Seq<char>) -> RewindView {
    RewindView { success: false, files_changed: seq![], insertions: 0, deletions: 0, error: Some(msg) }
}

/// What rewinding to a message comes to: refused while history is off or
/// when the message has no snapshot; otherwise the totals of its last
/// snapshot over the tracked files.
pub open spec fn rewind_view(m: FileHistoryManager, message_id: Seq<char>, facts: Seq<FileFacts>) -> RewindView {
    if !m.enabled() {
        failed_rewind(MSG_HISTORY_DISABLED@)
    } else {
        match latest_snapshot(m.snapshots(), message_id) {
            None => failed_rewind(no_snapshot_message(message_id)),
            Some(i) => {
                let t = rewind_totals(m.watched(), m.snapshots()[i].tracked_file_backups@, facts, m.watched().len());
                RewindView { success: true, files_changed: t.0, insertions: t.1, deletions: t.2, error: None }
            },
        }
    }
}

/// The actions rewinding to a message asks for (none on a dry run or a refusal).
pub open spec fn rewind_action_view(m: FileHistoryManager, message_id: Seq<char>, facts: Seq<FileFacts>, dry_run: bool) -> Seq<ActionView> {
    if dry_run || !m.enabled() {
        seq![]
    } else {
        match latest_snapshot(m.snapshots(), message_id) {
            None => seq![],
            Some(i) => rewind_actions(m.watched(), m.snapshots()[i].tracked_file_backups@, facts, m.backup_dir(), m.watched().len()),
        }
    }
}

impl FileHistoryManager {
    /// The caller's facts cover every tracked file, and the counts of a rewind
    /// to `message_id` fit in 32 bits.
    pub open spec fn rewind_inputs_ok(&self, message_id: Seq<char>, facts: Seq<FileFacts>) -> bool {
        &&& facts.len() == self.watched().len()
        &&& match latest_snapshot(self.snapshots(), message_id) {
            Some(i) => totals_fit(self.watched(), self.snapshots()[i].tracked_file_backups@, facts),
            None => true,
        }
    }

    /// Rewinds the tracked files to their state at the last snapshot of a
    /// message, given what the caller found about each tracked file (in the
    /// order of `tracked_files`). Refused while history is off, or when the
    /// message has no snapshot. The result lists the files changed and the
    /// lines added and removed (see `rewind_view`); the actions are what the
    /// caller must carry out (none on a dry run).
    pub fn rewind_to_message(&self, message_id: &str, dry_run: bool, facts: &Vec<FileFacts>) -> (r: (RewindResult, Vec<RewindAction>))
        requires
            self.rewind_inputs_ok(message_id@, facts@),
        ensures
            result_view(r.0) == rewind_view(*self, message_id@, facts@),
            r.1@.map_values(|a: RewindAction| a@) == rewind_action_view(*self, message_id@, facts@, dry_run),
    {
        if !self.enabled {
            let r = RewindResult::error(MSG_HISTORY_DISABLED);
            proof {
                assert(texts(r.files_changed@) =~= Seq::<Seq<char>>::empty());
            }
            return (r, Vec::new());
        }
        let idx = match self.find_snapshot(message_id) {
            Some(i) => i,
            None => {
                let mut msg = String::from_str("未找到消息 ");
                msg.append(message_id);
                msg.append(" 的快照");
                let r = RewindResult::error(msg.as_str());
                proof {
                    assert(texts(r.files_changed@) =~= Seq::<Seq<char>>::empty());
                }
                return (r, Vec::new());
            },
        };
        let snapshot = &self.snapshots[idx];
        self.apply_snapshot(snapshot, dry_run, facts)
    }

    /// Whether a rewind to `message_id` may be asked with these facts: one
    /// per tracked file, and counts that fit in 32 bits.
    pub fn rewind_inputs_fit(&self, message_id: &str, facts: &Vec<FileFacts>) -> (r: bool)
        ensures
            r == self.rewind_inputs_ok(message_id@, facts@),
    {
        if facts.len() != self.tracked_files.len() {
            return false;
        }
        let idx = match self.find_snapshot(message_id) {
            None => return true,
            Some(i) => i,
        };
        let snapshot = &self.snapshots[idx];
        let ghost paths = self.watched();
        let ghost e = snapshot.tracked_file_backups@;
        let n = self.tracked_files.len();
        let mut ins: u64 = 0;
        let mut del: u64 = 0;
        let mut k: usize = 0;
        while k < n
            invariant
                k <= n == paths.len() == facts@.len(),
                paths == texts(self.tracked_files@),
                paths == self.watched(),
                e == snapshot.tracked_file_backups@,
                latest_snapshot(self.snapshots(), message_id@) == Some(idx as int),
                idx < self.snapshots().len(),
                *snapshot == self.snapshots()[idx as int],
                ins == rewind_totals(paths, e, facts@, k as nat).1,
                del == rewind_totals(paths, e, facts@, k as nat).2,
                ins <= u32::MAX,
                del <= u32::MAX,
            decreases n - k,
        {
            let path = &self.tracked_files[k];
            let f = facts[k];
            proof {
                assert(paths[k as int] == self.tracked_files@[k as int]@);
            }
            match backup_lookup(&snapshot.tracked_file_backups, path.as_str()) {
                None => {},
                Some(b) => match &b.backup_file_name {
                    None => {
                        if f.exists {
                            del = del + f.lines as u64;
                        }
                    },
                    Some(_) => {
                        if f.backup_exists {
                            if f.backup_lines >= f.lines {
                                ins = ins + (f.backup_lines - f.lines) as u64;
                            } else {
                                del = del + (f.lines - f.backup_lines) as u64;
                            }
                        }
                    },
                },
            }
            proof {
                lemma_totals_grow(paths, e, facts@, (k + 1) as nat, n as nat);
                assert(facts@[k as int] == f);
                assert(ins == rewind_totals(paths, e, facts@, (k + 1) as nat).1);
                assert(del == rewind_totals(paths, e, facts@, (k + 1) as nat).2);
            }
            if ins > u32::MAX as u64 || del > u32::MAX as u64 {
                return false;
            }
            k = k + 1;
        }
        true
    }

    fn apply_snapshot(&self, snapshot: &FileSnapshot, dry_run: bool, facts: &Vec<FileFacts>) -> (r: (RewindResult, Vec<RewindAction>))
        requires
            facts@.len() == self.watched().len(),
            totals_fit(self.watched(), snapshot.tracked_file_backups@, facts@),
        ensures
            ({
                let e = snapshot.tracked_file_backups@;
                let (c, i, d) = rewind_totals(self.watched(), e, facts@, self.watched().len());
                &&& r.0.success
                &&& r.0.error is None
                &&& texts(r.0.files_changed@) == c
                &&& r.0.insertions == i
                &&& r.0.deletions == d
                &&& r.1@.map_values(|a: RewindAction| a@) == if dry_run {
                    Seq::<ActionView>::empty()
                } else {
                    rewind_actions(self.watched(), e, facts@, self.backup_dir(), self.watched().len())
                }
            }),
    {
        let ghost paths = self.watched();
        let ghost e = snapshot.tracked_file_backups@;
        let n = self.tracked_files.len();
        let mut files_changed: Vec<String> = Vec::new();
        let mut actions: Vec<RewindAction> = Vec::new();
        let mut insertions: u32 = 0;
        let mut deletions: u32 = 0;
        let mut k: usize = 0;
        while k < n
            invariant
                k <= n == paths.len() == facts@.len(),
                paths == self.watched(),
                paths == texts(self.tracked_files@),
                e == snapshot.tracked_file_backups@,
                totals_fit(paths, e, facts@),
                texts(files_changed@) == rewind_totals(paths, e, facts@, k as nat).0,
                insertions == rewind_totals(paths, e, facts@, k as nat).1,
                deletions == rewind_totals(paths, e, facts@, k as nat).2,
                actions@.map_values(|a: RewindAction| a@) == if dry_run {
                    Seq::<ActionView>::empty()
                } else {
                    rewind_actions(paths, e, facts@, self.backup_dir(), k as nat)
                },
            decreases n - k,
        {
            proof {
                lemma_totals_grow(paths, e, facts@, (k + 1) as nat, n as nat);
            }
            let path = &self.tracked_files[k];
            let f = facts[k];
            let ghost before_changed = files_changed@;
            let ghost before_actions = actions@;
            match backup_lookup(&snapshot.tracked_file_backups, path.as_str()) {
                None => {},
                Some(b) => match &b.backup_file_name {
                    None => {
                        if f.exists {
                            deletions = deletions + f.lines;
                            files_changed.push(path.clone());
                            if !dry_run {
                                actions.push(RewindAction::Delete(path.clone()));
                            }
                        }
                    },
                    Some(name) => {
                        if f.backup_exists {
                            let (ins, del) = self.calculate_diff(f.lines, f.backup_lines);
                            insertions = insertions + ins;
                            deletions = deletions + del;
                            if ins > 0 || del > 0 {
                                files_changed.push(path.clone());
                                if !dry_run {
                                    let bp = join_path(self.backup_dir.as_str(), name.as_str());
                                    actions.push(RewindAction::Restore { path: path.clone(), backup: bp });
                                }
                            }
                        }
                    },
                },
            }
            proof {
                assert(paths[k as int] == self.tracked_files@[k as int]@);
                assert(texts(files_changed@) =~= rewind_totals(paths, e, facts@, (k + 1) as nat).0);
                if !dry_run {
                    assert(actions@.map_values(|a: RewindAction| a@) =~= rewind_actions(paths, e, facts@, self.backup_dir(), (k + 1) as nat));
                } else {
                    assert(actions@.map_values(|a: RewindAction| a@) =~= Seq::<ActionView>::empty());
                }
            }
            k = k + 1;
        }
        (RewindResult::success(files_changed, insertions, deletions), actions)
    }
}

/// The backup a snapshot holds for a path.
fn backup_lookup<'a>(entries: &'a Vec<(String, FileBackup)>, path: &str) -> (r: Option<&'a FileBackup>)
    ensures
        match r {
            Some(b) => backup_for(entries@, path@) == Some(*b),
            None => backup_for(entries@, path@) is None,
        },
{
    let k = chars_of(path);
    let mut i = entries.len();
    proof {
        assert(entries@.take(i as int) =~= entries@);
    }
    while i > 0
        invariant
            i <= entries@.len(),
            k@ == path@,
            backup_for(entries@.take(i as int), path@) == backup_for(entries@, path@),
        decreases i,
    {
        proof {
            assert(entries@.take(i as int).drop_last() =~= entries@.take(i - 1));
            assert(entries@.take(i as int).last() == entries@[i - 1]);
        }
        let c = chars_of(entries[i - 1].0.as_str());
        if eq_chars(c.as_slice(), k.as_slice()) {
            return Some(&entries[i - 1].1);
        }
        i = i - 1;
    }
    None
}

/// What to rewind.
#[derive(Debug, Clone, Copy, PartialEq, Eq, Structural)]
pub enum RewindOption {
    Code,
    Conversation,
    Both,
    Nevermind,
}

/// A message that can be rewound to.
#[derive(Debug, Clone)]
pub struct RewindableMessage {
    pub uuid: String,
    pub index: usize,
    pub preview: String,
    pub timestamp: Option<i64>,
    pub has_file_changes: bool,
}

/// The outcome of rewinding the conversation.
#[derive(Debug, Clone, Copy, PartialEq, Eq, Structural)]
pub struct ConversationRewindResult {
    pub messages_removed: i32,
    pub new_message_count: usize,
}

/// The outcome of a rewind.
#[derive(Debug)]
pub struct RewindOperationResult {
    pub success: bool,
    pub option: RewindOption,
    pub code_result: Option<RewindResult>,
    pub conversation_result: Option<ConversationRewindResult>,
    pub error: Option<String>,
}

/// What a rewind would change.
#[derive(Debug)]
pub struct RewindPreview {
    pub files_will_change: Vec<String>,
    pub messages_will_remove: usize,
    pub insertions: u32,
    pub deletions: u32,
}

impl RewindPreview {
    /// A preview of no change.
    pub fn empty() -> (r: Self)
        ensures
            r.files_will_change@.len() == 0,
            r.messages_will_remove == 0,
            r.insertions == 0,
            r.deletions == 0,
    {
        RewindPreview { files_will_change: Vec::new(), messages_will_remove: 0, insertions: 0, deletions: 0 }
    }
}

/// Whether the option rewinds the files.
pub open spec fn rewinds_code(o: RewindOption) -> bool {
    o == RewindOption::Code || o == RewindOption::Both
}

/// Whether the option rewinds the conversation.
pub open spec fn rewinds_conversation(o: RewindOption) -> bool {
    o == RewindOption::Conversation || o == RewindOption::Both
}

/// The file history of a session and the number of user messages recorded.
pub struct RewindManager {
    file_history: FileHistoryManager,
    message_count: usize,
}

impl RewindManager {
    /// The file history.
    pub closed spec fn history(&self) -> FileHistoryManager {
        self.file_history
    }

    /// The number of user messages recorded.
    pub closed spec fn messages(&self) -> nat {
        self.message_count as nat
    }

    /// The history is well formed.
    pub open spec fn wf(&self) -> bool {
        self.history().wf()
    }

    /// A manager for a session (see `FileHistoryManager::new`), with no message recorded.
    pub fn new(session_id: &str, config_dir: Option<&str>) -> (r: Self)
        ensures
            r.wf(),
            r.messages() == 0,
            r.history().session() == session_id@,
            r.history().watched().len() == 0,
            r.history().snapshots().len() == 0,
            r.history().enabled(),
            r.history().backup_dir() == backup_dir_for(match config_dir {
                Some(d) => Some(d@),
                None => None,
            }, session_id@),
    {
        RewindManager { file_history: FileHistoryManager::new(session_id, config_dir), message_count: 0 }
    }

    /// The number of user messages recorded.
    pub fn message_count(&self) -> (r: usize)
        ensures
            r == self.messages(),
    {
        self.message_count
    }

    /// The file history.
    pub fn get_file_history_manager(&self) -> (r: &FileHistoryManager)
        ensures
            *r == self.history(),
    {
        &self.file_history
    }

    /// The file history, to change it.
    pub fn get_file_history_manager_mut(&mut self) -> (r: &mut FileHistoryManager)
        ensures
            *r == old(self).history(),
            final(self).history() == *final(r),
            final(self).messages() == old(self).messages(),
    {
        &mut self.file_history
    }

    /// Records a user message: the snapshot of the backups the caller took
    /// (see `FileHistoryManager::create_snapshot`), and one message more.
    pub fn record_user_message(&mut self, message_id: &str, timestamp: i64, backups: Vec<(String, FileBackup)>)
        requires
            old(self).messages() < usize::MAX,
        ensures
            old(self).wf() ==> final(self).wf(),
            final(self).messages() == old(self).messages() + 1,
            final(self).history().watched() == old(self).history().watched(),
            final(self).history().enabled() == old(self).history().enabled(),
            final(self).history().backup_dir() == old(self).history().backup_dir(),
            !old(self).history().enabled() ==> final(self).history().snapshots() == old(self).history().snapshots(),
            old(self).history().enabled() ==> final(self).history().snapshots().drop_last() == old(self).history().snapshots()
                && final(self).history().snapshots().len() == old(self).history().snapshots().len() + 1
                && final(self).history().snapshots().last().message_id@ == message_id@
                && final(self).history().snapshots().last().timestamp == timestamp
                && final(self).history().snapshots().last().tracked_file_backups == backups,
    {
        self.file_history.create_snapshot(message_id, timestamp, backups);
        self.message_count = self.message_count + 1;
    }

    /// Records a change to a file: a backup of it (from what the caller
    /// found), then the file is tracked.
    pub fn record_file_change(&mut self, file_path: &str, cwd: Option<&str>, observed: &FileObservation) -> (r: Option<FileBackup>)
        ensures
            old(self).wf() ==> final(self).wf(),
            final(self).messages() == old(self).messages(),
            final(self).history().snapshots() == old(self).history().snapshots(),
            final(self).history().enabled() == old(self).history().enabled(),
            !old(self).history().enabled() ==> r is None && final(self).history().watched() == old(self).history().watched(),
            old(self).history().enabled() ==> {
                let p = normalized_path(file_path@, match cwd {
                    Some(c) => Some(c@),
                    None => None,
                });
                final(self).history().watched() == if old(self).history().watched().contains(p) {
                    old(self).history().watched()
                } else {
                    old(self).history().watched().push(p)
                }
            },
    {
        let ghost w0 = self.file_history.watched();
        let ghost p = normalized_path(file_path@, match cwd {
            Some(c) => Some(c@),
            None => None,
        });
        let b = self.file_history.backup_file_before_change(file_path, cwd, observed);
        proof {
            assert(w0.push(p)[w0.len() as int] == p);
        }
        self.file_history.track_file(file_path, cwd);
        b
    }

    /// Whether there is a snapshot to rewind to.
    pub fn can_rewind(&self) -> (r: bool)
        ensures
            r == (self.history().snapshots().len() > 0),
    {
        self.file_history.get_snapshots_count() > 0
    }

    /// The directory of the session's backups, which the caller removes to clean up.
    pub fn cleanup(&self) -> (r: &str)
        ensures
            r@ == self.history().backup_dir(),
    {
        self.file_history.get_backup_dir()
    }

    /// Rewinds to a message: nothing for `Nevermind`; the files (see
    /// `FileHistoryManager::rewind_to_message`) for `Code` and `Both`, whose
    /// failure fails the whole; the conversation, whose message count is
    /// reported, for `Conversation` and `Both`. The actions are what the
    /// caller must carry out on the files.
    pub fn rewind(&mut self, message_id: &str, option: RewindOption, facts: &Vec<FileFacts>) -> (r: (RewindOperationResult, Vec<RewindAction>))
        requires
            old(self).history().rewind_inputs_ok(message_id@, facts@),
        ensures
            final(self).history() == old(self).history(),
            final(self).messages() == old(self).messages(),
            r.0.option == option,
            option == RewindOption::Nevermind ==> r.0.success && r.0.code_result is None && r.0.conversation_result is None
                && r.0.error is None && r.1@.len() == 0,
            option != RewindOption::Nevermind ==> {
                let v = rewind_view(old(self).history(), message_id@, facts@);
                &&& rewinds_code(option) ==> (r.0.code_result matches Some(c) && result_view(c) == v)
                    && r.0.success == v.success && crate::ask::opt_chars(r.0.error) == (if v.success { None::<Seq<char>> } else { v.error })
                    && r.1@.map_values(|a: RewindAction| a@) == rewind_action_view(old(self).history(), message_id@, facts@, false)
                &&& !rewinds_code(option) ==> r.0.code_result is None && r.0.success && r.0.error is None && r.1@.len() == 0
                &&& rewinds_conversation(option) ==> r.0.conversation_result == Some(ConversationRewindResult {
                    messages_removed: 0,
                    new_message_count: old(self).messages() as usize,
                })
                &&& !rewinds_conversation(option) ==> r.0.conversation_result is None
            },
    {
        if option == RewindOption::Nevermind {
            return (RewindOperationResult { success: true, option, code_result: None, conversation_result: None, error: None }, Vec::new());
        }
        let mut result = RewindOperationResult { success: true, option, code_result: None, conversation_result: None, error: None };
        let mut actions: Vec<RewindAction> = Vec::new();
        if option == RewindOption::Code || option == RewindOption::Both {
            let (code_result, acts) = self.file_history.rewind_to_message(message_id, false, facts);
            if !code_result.success {
                result.success = false;
                result.error = match &code_result.error {
                    Some(e) => Some(e.clone()),
                    None => None,
                };
            }
            result.code_result = Some(code_result);
            actions = acts;
        }
        if option == RewindOption::Conversation || option == RewindOption::Both {
            result.conversation_result = Some(ConversationRewindResult { messages_removed: 0, new_message_count: self.message_count });
        }
        (result, actions)
    }

    /// What rewinding the files to a message would change, without changing
    /// anything; nothing unless the option rewinds the files.
    pub fn preview_rewind(&self, message_id: &str, option: RewindOption, facts: &Vec<FileFacts>) -> (r: RewindPreview)
        requires
            self.history().rewind_inputs_ok(message_id@, facts@),
        ensures
            r.messages_will_remove == 0,
            rewinds_code(option) ==> preview_matches(r, rewind_view(self.history(), message_id@, facts@)),
            !rewinds_code(option) ==> r.files_will_change@.len() == 0 && r.insertions == 0 && r.deletions == 0,
    {
        let mut preview = RewindPreview::empty();
        if option == RewindOption::Code || option == RewindOption::Both {
            let (result, _) = self.file_history.rewind_to_message(message_id, true, facts);
            preview.files_will_change = result.files_changed;
            preview.insertions = result.insertions;
            preview.deletions = result.deletions;
        }
        preview
    }
}

/// The preview shows the files, insertions and deletions of the outcome.
pub open spec fn preview_matches(p: RewindPreview, v: RewindView) -> bool {
    texts(p.files_will_change@) == v.files_changed && p.insertions == v.insertions && p.deletions == v.deletions
}

/// A rewind and its preview agree: for the same message and the same facts,
/// the preview lists exactly the files, insertions and deletions that the
/// rewind reports; and the rewind fails exactly when history is off or the
/// message has no snapshot.
pub proof fn lemma_preview_shows_rewind(m: FileHistoryManager, message_id: Seq<char>, facts: Seq<FileFacts>, p: RewindPreview, r: RewindResult)
    requires
        preview_matches(p, rewind_view(m, message_id, facts)),
        result_view(r) == rewind_view(m, message_id, facts),
    ensures
        texts(p.files_will_change@) == texts(r.files_changed@),
        p.insertions == r.insertions,
        p.deletions == r.deletions,
        r.success <==> (m.enabled() && latest_snapshot(m.snapshots(), message_id) is Some),
{
}

/// Restoring a file changes it by the difference of the line counts: the
/// lines added less the lines removed is the backup's count less the file's,
/// and only one of the two is non-zero.
pub proof fn lemma_restore_counts_line_difference(entries: Seq<(String, FileBackup)>, path: Seq<char>, f: FileFacts)
    requires
        file_change(entries, path, f) matches Some((_, _, false)),
    ensures
        ({
            let (ins, del, _) = file_change(entries, path, f)->0;
            &&& ins - del == f.backup_lines - f.lines
            &&& ins == 0 || del == 0
            &&& ins > 0 || del > 0
        }),
{
}

} // verus!
