//! The per-user registry of running sessions: record file names, session
//! ids, `/proc/<pid>/stat` start times and the order in which sessions are
//! listed. The directory and file operations stand outside the library.
use vstd::prelude::*;

use super::record::{SessionRecord, SessionRecordView};
use crate::protocol::io_error_text;
use super::lines::{chars_from, last_index_of, rfind_char, split_whitespace, words};
use crate::text::{
    chars_of, decimal, lossy_utf8, owned, parse_unsigned, parse_unsigned_chars, push_char,
    push_decimal, push_str, utf8_bytes, utf8_lossy,
};
use vstd::utf8::encode_utf8;

verus! {

broadcast use vstd::string::group_string_axioms;

/// Why a registry operation failed.
#[derive(Debug)]
pub enum RegistryError {
    Io(std::io::Error),
    Clock(String),
    UnsafeDirectory(Vec<u8>),
    WrongOwner(Vec<u8>),
    UnsafeRecord(Vec<u8>),
    InvalidRecord(String),
    InvalidId(String),
    SessionNotFound(String),
    ProcessGone(u32),
    StaleSession(String),
    Signal(String),
}

pub enum RegistryErrorView {
    Io,
    Clock(Seq<char>),
    UnsafeDirectory(Seq<u8>),
    WrongOwner(Seq<u8>),
    UnsafeRecord(Seq<u8>),
    InvalidRecord(Seq<char>),
    InvalidId(Seq<char>),
    SessionNotFound(Seq<char>),
    ProcessGone(u32),
    StaleSession(Seq<char>),
    Signal(Seq<char>),
}

impl View for RegistryError {
    type V = RegistryErrorView;

    open spec fn view(&self) -> RegistryErrorView {
        match self {
            RegistryError::Io(_) => RegistryErrorView::Io,
            RegistryError::Clock(m) => RegistryErrorView::Clock(m@),
            RegistryError::UnsafeDirectory(path) => RegistryErrorView::UnsafeDirectory(path@),
            RegistryError::WrongOwner(path) => RegistryErrorView::WrongOwner(path@),
            RegistryError::UnsafeRecord(path) => RegistryErrorView::UnsafeRecord(path@),
            RegistryError::InvalidRecord(m) => RegistryErrorView::InvalidRecord(m@),
            RegistryError::InvalidId(id) => RegistryErrorView::InvalidId(id@),
            RegistryError::SessionNotFound(id) => RegistryErrorView::SessionNotFound(id@),
            RegistryError::ProcessGone(pid) => RegistryErrorView::ProcessGone(*pid),
            RegistryError::StaleSession(id) => RegistryErrorView::StaleSession(id@),
            RegistryError::Signal(m) => RegistryErrorView::Signal(m@),
        }
    }
}

/// The message of `error`; of an I/O error, only the text that std gives
/// it, which is not stated here.
pub open spec fn registry_error_text(error: RegistryErrorView) -> Seq<char> {
    match error {
        RegistryErrorView::Io => Seq::empty(),
        RegistryErrorView::Clock(m) => "system clock error: "@ + m,
        RegistryErrorView::UnsafeDirectory(path) => "unsafe session registry directory: "@
            + lossy_utf8(path),
        RegistryErrorView::WrongOwner(path) => "session registry is owned by another user: "@
            + lossy_utf8(path),
        RegistryErrorView::UnsafeRecord(path) => "unsafe session record: "@ + lossy_utf8(path),
        RegistryErrorView::InvalidRecord(m) => "invalid session record: "@ + m,
        RegistryErrorView::InvalidId(id) => "invalid session id '"@ + id + seq!['\''],
        RegistryErrorView::SessionNotFound(id) => "session '"@ + id + "' was not found"@,
        RegistryErrorView::ProcessGone(pid) => "session process "@ + decimal(pid as nat)
            + " is no longer running"@,
        RegistryErrorView::StaleSession(id) => "session '"@ + id + "' is no longer running"@,
        RegistryErrorView::Signal(m) => "could not stop session: "@ + m,
    }
}

impl RegistryError {
    /// The human-readable message of this error.
    pub fn message(&self) -> (text: String)
        ensures
            !(self@ is Io) ==> text@ == registry_error_text(self@),
    {
        let mut text = String::new();
        match self {
            RegistryError::Io(error) => {
                text = io_error_text(error);
            },
            RegistryError::Clock(m) => {
                push_str(&mut text, "system clock error: ");
                push_str(&mut text, m.as_str());
            },
            RegistryError::UnsafeDirectory(path) => {
                push_str(&mut text, "unsafe session registry directory: ");
                push_str(&mut text, utf8_lossy(path.as_slice()).as_str());
            },
            RegistryError::WrongOwner(path) => {
                push_str(&mut text, "session registry is owned by another user: ");
                push_str(&mut text, utf8_lossy(path.as_slice()).as_str());
            },
            RegistryError::UnsafeRecord(path) => {
                push_str(&mut text, "unsafe session record: ");
                push_str(&mut text, utf8_lossy(path.as_slice()).as_str());
            },
            RegistryError::InvalidRecord(m) => {
                push_str(&mut text, "invalid session record: ");
                push_str(&mut text, m.as_str());
            },
            RegistryError::InvalidId(id) => {
                push_str(&mut text, "invalid session id '");
                push_str(&mut text, id.as_str());
                push_char(&mut text, '\'');
            },
            RegistryError::SessionNotFound(id) => {
                push_str(&mut text, "session '");
                push_str(&mut text, id.as_str());
                push_str(&mut text, "' was not found");
            },
            RegistryError::ProcessGone(pid) => {
                push_str(&mut text, "session process ");
                push_decimal(&mut text, *pid as u64);
                push_str(&mut text, " is no longer running");
            },
            RegistryError::StaleSession(id) => {
                push_str(&mut text, "session '");
                push_str(&mut text, id.as_str());
                push_str(&mut text, "' is no longer running");
            },
            RegistryError::Signal(m) => {
                push_str(&mut text, "could not stop session: ");
                push_str(&mut text, m.as_str());
            },
        }
        text
    }
}

/// `b.is_ascii_alphanumeric() || b == b'-' || b == b'_'`, on characters.
pub open spec fn id_char(c: char) -> bool {
    ('0' <= c && c <= '9') || ('a' <= c && c <= 'z') || ('A' <= c && c <= 'Z') || c == '-' || c
        == '_'
}

/// A session id names a file of the registry: it is not empty and holds only
/// ASCII letters, digits, `-` and `_`, so it cannot leave the directory.
pub open spec fn valid_session_id(id: Seq<char>) -> bool {
    id.len() > 0 && forall|i: int| 0 <= i < id.len() ==> id_char(#[trigger] id[i])
}

/// Whether `id` may name a session record.
pub fn is_valid_session_id(id: &str) -> (valid: bool)
    ensures
        valid == valid_session_id(id@),
{
    let chars = chars_of(id);
    if chars.len() == 0 {
        return false;
    }
    for i in 0..chars.len()
        invariant
            chars@ == id@,
            forall|k: int| 0 <= k < i ==> id_char(#[trigger] chars@[k]),
    {
        let c = chars[i];
        if !(('0' <= c && c <= '9') || ('a' <= c && c <= 'z') || ('A' <= c && c <= 'Z') || c
            == '-' || c == '_') {
            assert(!id_char(id@[i as int]));
            return false;
        }
    }
    true
}

/// The file name of the record of session `id`: `<id>.session`.
pub fn record_file_name(id: &str) -> (r: Result<String, RegistryError>)
    ensures
        valid_session_id(id@) ==> (r matches Ok(name) && name@ == id@ + ".session"@),
        !valid_session_id(id@) ==> (r matches Err(e) && e@ == RegistryErrorView::InvalidId(id@)),
{
    if !is_valid_session_id(id) {
        return Err(RegistryError::InvalidId(owned(id)));
    }
    let mut name = owned(id);
    push_str(&mut name, ".session");
    Ok(name)
}

/// The id under which the process `pid` registers its session: `gui-<pid>`.
pub fn session_id(pid: u32) -> (id: String)
    ensures
        id@ == "gui-"@ + decimal(pid as nat),
{
    let mut id = owned("gui-");
    push_decimal(&mut id, pid as u64);
    id
}

/// `PathBuf::join` on the bytes of Unix paths: `name` after `directory`,
/// with a `/` between them unless `directory` is empty or already ends with
/// one (`name` is relative).
pub open spec fn joined(directory: Seq<u8>, name: Seq<u8>) -> Seq<u8> {
    if directory.len() == 0 || directory.last() == 0x2fu8 {
        directory + name
    } else {
        directory + seq![0x2fu8] + name
    }
}

/// Joins the relative `name` onto `directory`.
fn join_path(directory: &Vec<u8>, name: &[u8]) -> (path: Vec<u8>)
    ensures
        path@ == joined(directory@, name@),
{
    let mut path = directory.clone();
    assert(path@ == directory@);
    if path.len() != 0 && path[path.len() - 1] != 0x2f {
        path.push(0x2f);
    }
    let ghost base = path@;
    for i in 0..name.len()
        invariant
            path@ == base + name@.take(i as int),
    {
        path.push(name[i]);
        assert(name@.take(i + 1) =~= name@.take(i as int).push(name@[i as int]));
    }
    assert(name@.take(name@.len() as int) =~= name@);
    path
}

/// The directory of the session registry, from the values of
/// `MICRO_GUI_RUNTIME_DIR` and `XDG_RUNTIME_DIR`, the temporary directory
/// and the effective user id: the first variable as it is; else
/// `micro-gui/sessions` under the second; else `micro-gui-<euid>/sessions`
/// under the temporary directory.
pub open spec fn registry_directory_of(
    runtime_dir: Option<Seq<u8>>,
    xdg_runtime_dir: Option<Seq<u8>>,
    temp_dir: Seq<u8>,
    euid: u32,
) -> Seq<u8> {
    match runtime_dir {
        Some(path) => path,
        None => match xdg_runtime_dir {
            Some(path) => joined(joined(path, encode_utf8("micro-gui"@)), encode_utf8("sessions"@)),
            None => joined(
                joined(temp_dir, encode_utf8("micro-gui-"@ + decimal(euid as nat))),
                encode_utf8("sessions"@),
            ),
        },
    }
}

/// Where the session registry lives.
pub fn registry_directory(
    runtime_dir: Option<Vec<u8>>,
    xdg_runtime_dir: Option<Vec<u8>>,
    temp_dir: Vec<u8>,
    euid: u32,
) -> (directory: Vec<u8>)
    ensures
        directory@ == registry_directory_of(
            match runtime_dir {
                Some(p) => Some(p@),
                None => None,
            },
            match xdg_runtime_dir {
                Some(p) => Some(p@),
                None => None,
            },
            temp_dir@,
            euid,
        ),
{
    match runtime_dir {
        Some(path) => path,
        None => {
            let sessions = utf8_bytes("sessions");
            match xdg_runtime_dir {
                Some(path) => {
                    let base = join_path(&path, utf8_bytes("micro-gui").as_slice());
                    join_path(&base, sessions.as_slice())
                },
                None => {
                    let mut name = owned("micro-gui-");
                    push_decimal(&mut name, euid as u64);
                    let base = join_path(&temp_dir, utf8_bytes(name.as_str()).as_slice());
                    join_path(&base, sessions.as_slice())
                },
            }
        },
    }
}

/// The per-user directory that holds the session records, as the bytes of
/// its path.
pub struct SessionRegistry {
    directory: Vec<u8>,
}

impl SessionRegistry {
    /// Accepts `directory` as the registry once its metadata has been read:
    /// it must be a real directory (not a symbolic link) owned by the
    /// effective user `euid`.
    pub fn checked(directory: Vec<u8>, is_symlink: bool, is_dir: bool, owner: u32, euid: u32) -> (r:
        Result<Self, RegistryError>)
        ensures
            (is_symlink || !is_dir) ==> (r matches Err(e) && e@ == RegistryErrorView::UnsafeDirectory(
                directory@,
            )),
            !(is_symlink || !is_dir) && owner != euid ==> (r matches Err(e) && e@
                == RegistryErrorView::WrongOwner(directory@)),
            !(is_symlink || !is_dir) && owner == euid ==> (r matches Ok(registry)
                && registry.directory_spec() == directory@),
    {
        if is_symlink || !is_dir {
            return Err(RegistryError::UnsafeDirectory(directory));
        }
        if owner != euid {
            return Err(RegistryError::WrongOwner(directory));
        }
        Ok(SessionRegistry { directory })
    }

    /// The directory this registry was accepted with.
    pub closed spec fn directory_spec(&self) -> Seq<u8> {
        self.directory@
    }

    /// The registry's directory.
    pub fn directory(&self) -> (d: &Vec<u8>)
        ensures
            d@ == self.directory_spec(),
    {
        &self.directory
    }

    /// The path of the record of session `id`: `<id>.session` inside the
    /// registry's directory; an id that could name another file is refused.
    pub fn record_path(&self, id: &str) -> (r: Result<Vec<u8>, RegistryError>)
        ensures
            valid_session_id(id@) ==> (r matches Ok(path) && path@ == joined(
                self.directory_spec(),
                encode_utf8(id@ + ".session"@),
            )),
            !valid_session_id(id@) ==> (r matches Err(e) && e@ == RegistryErrorView::InvalidId(id@)),
    {
        let name = match record_file_name(id) {
            Ok(name) => name,
            Err(e) => return Err(e),
        };
        let bytes = utf8_bytes(name.as_str());
        Ok(join_path(&self.directory, bytes.as_slice()))
    }
}

/// A record file may be read only when it is a regular file (not a symbolic
/// link) owned by the effective user `euid`.
pub fn check_record_file(
    path: Vec<u8>,
    is_symlink: bool,
    is_file: bool,
    owner: u32,
    euid: u32,
) -> (r: Result<(), RegistryError>)
    ensures
        (is_symlink || !is_file || owner != euid) ==> (r matches Err(e) && e@
            == RegistryErrorView::UnsafeRecord(path@)),
        !(is_symlink || !is_file || owner != euid) ==> r is Ok,
{
    if is_symlink || !is_file || owner != euid {
        Err(RegistryError::UnsafeRecord(path))
    } else {
        Ok(())
    }
}

/// A registered session: its record and the file that holds it.
pub struct SessionRegistration {
    record: SessionRecord,
    path: Vec<u8>,
}

impl SessionRegistration {
    pub fn new(record: SessionRecord, path: Vec<u8>) -> (r: Self)
        ensures
            r.record_spec()@ == record@,
            r.path_spec() == path@,
    {
        SessionRegistration { record, path }
    }

    pub closed spec fn record_spec(&self) -> SessionRecord {
        self.record
    }

    /// The registered record.
    pub fn record(&self) -> (r: &SessionRecord)
        ensures
            r@ == self.record_spec()@,
    {
        &self.record
    }

    /// The file this registration was made with.
    pub closed spec fn path_spec(&self) -> Seq<u8> {
        self.path@
    }

    /// The file that holds the record.
    pub fn path(&self) -> (p: &Vec<u8>)
        ensures
            p@ == self.path_spec(),
    {
        &self.path
    }
}

/// The record of the current process's session, once its start time and the
/// clock have been read: a process that is gone is reported before a clock
/// failure.
pub fn new_session_record(
    pid: u32,
    application: String,
    runtime: String,
    process_start_ticks: Option<u64>,
    clock: Result<u64, String>,
) -> (r: Result<SessionRecord, RegistryError>)
    ensures
        process_start_ticks is None ==> (r matches Err(e) && e@ == RegistryErrorView::ProcessGone(pid)),
        process_start_ticks matches Some(ticks) ==> match clock {
            Err(m) => r matches Err(e) && e@ == RegistryErrorView::Clock(m@),
            Ok(seconds) => r matches Ok(record) && record@ == (SessionRecordView {
                id: "gui-"@ + decimal(pid as nat),
                application: application@,
                runtime: runtime@,
                pid,
                process_start_ticks: ticks,
                started_unix_seconds: seconds,
            }),
        },
{
    let ticks = match process_start_ticks {
        Some(ticks) => ticks,
        None => {
            return Err(RegistryError::ProcessGone(pid));
        },
    };
    let seconds = match clock {
        Ok(seconds) => seconds,
        Err(m) => {
            return Err(RegistryError::Clock(m));
        },
    };
    Ok(
        SessionRecord {
            id: session_id(pid),
            application,
            runtime,
            pid,
            process_start_ticks: ticks,
            started_unix_seconds: seconds,
        },
    )
}

/// A recorded session is still running when the process with its pid has
/// the start time that was recorded.
pub fn process_matches(record: &SessionRecord, current_start_ticks: Option<u64>) -> (r: bool)
    ensures
        r == (current_start_ticks == Some(record.process_start_ticks)),
{
    match current_start_ticks {
        Some(ticks) => ticks == record.process_start_ticks,
        None => false,
    }
}

/// What sending `SIGTERM` to a session's process came to.
#[derive(Debug, Clone, PartialEq, Eq)]
pub enum SignalOutcome {
    Delivered,
    /// The process no longer exists (`ESRCH`).
    NoSuchProcess,
    /// Another failure, with its message.
    Failed(String),
}

/// Stopping session `id` goes on only while the process of its record still
/// runs; otherwise the session is stale (and its record file is removed).
pub fn check_running(id: &str, record: &SessionRecord, current_start_ticks: Option<u64>) -> (r:
    Result<(), RegistryError>)
    ensures
        current_start_ticks == Some(record.process_start_ticks) <==> r is Ok,
        r is Err ==> (r matches Err(e) && e@ == RegistryErrorView::StaleSession(id@)),
{
    if process_matches(record, current_start_ticks) {
        Ok(())
    } else {
        Err(RegistryError::StaleSession(owned(id)))
    }
}

/// How stopping session `id` ends once `SIGTERM` was sent to its process:
/// the record when it was delivered; a stale session when the process was
/// already gone (its record file is then removed); the failure otherwise.
pub fn stop_outcome(id: &str, record: SessionRecord, signal: SignalOutcome) -> (r: Result<
    SessionRecord,
    RegistryError,
>)
    ensures
        match signal {
            SignalOutcome::Delivered => r matches Ok(x) && x@ == record@,
            SignalOutcome::NoSuchProcess => r matches Err(e) && e@ == RegistryErrorView::StaleSession(
                id@,
            ),
            SignalOutcome::Failed(m) => r matches Err(e) && e@ == RegistryErrorView::Signal(m@),
        },
{
    match signal {
        SignalOutcome::Delivered => Ok(record),
        SignalOutcome::NoSuchProcess => Err(RegistryError::StaleSession(owned(id))),
        SignalOutcome::Failed(m) => Err(RegistryError::Signal(m)),
    }
}

/// The start time of process `pid` in clock ticks, as `/proc/<pid>/stat`
/// gives it: the 20th whitespace-separated field after the last `)` (the
/// command name before it may hold anything); otherwise the message of the
/// `InvalidRecord` error.
pub open spec fn stat_start_ticks(pid: u32, contents: Seq<char>) -> Result<nat, Seq<char>> {
    match last_index_of(contents, ')') {
        None => Err("invalid /proc/"@ + decimal(pid as nat) + "/stat contents"@),
        Some(close) => {
            let fields = words(contents.skip(close + 1));
            if fields.len() <= 19 {
                Err("missing start time for pid "@ + decimal(pid as nat))
            } else {
                match parse_unsigned(fields[19], u64::MAX as nat) {
                    None => Err("invalid start time for pid "@ + decimal(pid as nat)),
                    Some(ticks) => Ok(ticks),
                }
            }
        },
    }
}

fn pid_message(prefix: &str, pid: u32, suffix: &str) -> (m: String)
    ensures
        m@ == prefix@ + decimal(pid as nat) + suffix@,
{
    let mut m = owned(prefix);
    push_decimal(&mut m, pid as u64);
    push_str(&mut m, suffix);
    m
}

/// Reads the start time of process `pid` from the contents of its
/// `/proc/<pid>/stat`.
pub fn parse_stat_start_ticks(pid: u32, contents: &str) -> (r: Result<u64, RegistryError>)
    ensures
        match r {
            Ok(ticks) => stat_start_ticks(pid, contents@) == Ok::<nat, Seq<char>>(ticks as nat),
            Err(e) => stat_start_ticks(pid, contents@) matches Err(m) && e@
                == RegistryErrorView::InvalidRecord(m),
        },
{
    proof {
        reveal_strlit("");
        assert(forall|s: Seq<char>| s + ""@ =~= s);
    }
    let chars = chars_of(contents);
    let close = match rfind_char(&chars, ')') {
        Some(close) => close,
        None => {
            return Err(RegistryError::InvalidRecord(pid_message("invalid /proc/", pid, "/stat contents")));
        },
    };
    let rest = chars_from(&chars, close + 1);
    let fields = split_whitespace(&rest);
    if fields.len() <= 19 {
        return Err(RegistryError::InvalidRecord(pid_message("missing start time for pid ", pid, "")));
    }
    assert(fields.deep_view()[19] == fields@[19]@);
    match parse_unsigned_chars(&fields[19], u64::MAX) {
        Some(ticks) => Ok(ticks),
        None => Err(RegistryError::InvalidRecord(pid_message("invalid start time for pid ", pid, ""))),
    }
}

/// `Path::extension(file_name) == Some("session")`: the text after the last
/// `.` is `session`, and that `.` does not start the name.
pub open spec fn session_file_name(name: Seq<char>) -> bool {
    match last_index_of(name, '.') {
        Some(dot) => dot > 0 && name.skip(dot + 1) == "session"@,
        None => false,
    }
}

/// Whether a directory entry named `file_name` holds a session record.
pub fn has_session_extension(file_name: &str) -> (r: bool)
    ensures
        r == session_file_name(file_name@),
{
    let chars = chars_of(file_name);
    match rfind_char(&chars, '.') {
        None => false,
        Some(dot) => {
            if dot == 0 {
                return false;
            }
            let extension = chars_from(&chars, dot + 1);
            let wanted = chars_of("session");
            if extension.len() != wanted.len() {
                assert(extension@ != "session"@);
                return false;
            }
            for i in 0..extension.len()
                invariant
                    extension@.len() == wanted@.len(),
                    wanted@ == "session"@,
                    extension@ == file_name@.skip(dot + 1),
                    last_index_of(file_name@, '.') == Some(dot as int),
                    dot > 0,
                    forall|k: int| 0 <= k < i ==> extension@[k] == wanted@[k],
            {
                if extension[i] != wanted[i] {
                    assert(extension@[i as int] != wanted@[i as int]);
                    return false;
                }
            }
            assert(extension@ =~= wanted@);
            true
        },
    }
}

pub open spec fn record_views(s: Seq<SessionRecord>) -> Seq<SessionRecordView> {
    s.map_values(|r: SessionRecord| r@)
}

/// The records started at second `t`.
pub open spec fn started_at(t: u64) -> spec_fn(SessionRecordView) -> bool {
    |r: SessionRecordView| r.started_unix_seconds == t
}

pub open spec fn sorted_by_start(s: Seq<SessionRecordView>) -> bool {
    forall|i: int, j: int|
        0 <= i <= j < s.len() ==> s[i].started_unix_seconds <= s[j].started_unix_seconds
}

/// For every start time, `a` and `b` hold the same records in the same
/// order; with `sorted_by_start` this makes `a` the stable sort of `b`.
pub open spec fn same_order_per_start(a: Seq<SessionRecordView>, b: Seq<SessionRecordView>) -> bool {
    forall|t: u64| #[trigger] a.filter(started_at(t)) == b.filter(started_at(t))
}

proof fn lemma_insert_by_start(old: Seq<SessionRecordView>, pos: int, x: SessionRecordView)
    requires
        sorted_by_start(old),
        0 <= pos <= old.len(),
        forall|k: int| 0 <= k < pos ==> old[k].started_unix_seconds <= x.started_unix_seconds,
        forall|k: int|
            pos <= k < old.len() ==> old[k].started_unix_seconds > x.started_unix_seconds,
    ensures
        sorted_by_start(old.insert(pos, x)),
        forall|t: u64| #[trigger] old.insert(pos, x).filter(started_at(t)) == old.push(x).filter(
            started_at(t),
        ),
{
    let new = old.insert(pos, x);
    assert forall|i: int, j: int| 0 <= i <= j < new.len() implies new[i].started_unix_seconds
        <= new[j].started_unix_seconds by {
        if i < pos && j > pos {
            assert(new[j] == old[j - 1]);
        } else if i > pos {
            assert(new[i] == old[i - 1] && new[j] == old[j - 1]);
        }
    }
    let a = old.take(pos);
    let b = old.skip(pos);
    assert(old =~= a + b);
    assert(new =~= a + seq![x] + b);
    assert(old.push(x) =~= a + b + seq![x]);
    assert forall|t: u64| #[trigger] new.filter(started_at(t)) == old.push(x).filter(
        started_at(t),
    ) by {
        let p = started_at(t);
        Seq::filter_distributes_over_add(a + seq![x], b, p);
        Seq::filter_distributes_over_add(a, seq![x], p);
        Seq::filter_distributes_over_add(a + b, seq![x], p);
        Seq::filter_distributes_over_add(a, b, p);
        Seq::<SessionRecordView>::empty().lemma_filter_push(x, p);
        assert(Seq::<SessionRecordView>::empty().push(x) =~= seq![x]);
        assert(Seq::<SessionRecordView>::empty().filter(p) =~= Seq::<SessionRecordView>::empty())
            by {
            reveal(Seq::filter);
        }
        if x.started_unix_seconds == t {
            assert(b.all(|y: SessionRecordView| !p(y))) by {
                assert forall|k: int| 0 <= k < b.len() implies !p(#[trigger] b[k]) by {
                    assert(b[k] == old[pos + k]);
                }
            }
            b.lemma_all_neg_filter_empty(p);
            assert(b.filter(p) =~= Seq::<SessionRecordView>::empty());
        }
    }
}

/// The records ordered by start time; records started in the same second
/// keep their order (a stable sort, as `sort_by_key`).
pub fn sort_by_start(records: Vec<SessionRecord>) -> (sorted: Vec<SessionRecord>)
    ensures
        sorted_by_start(record_views(sorted@)),
        same_order_per_start(record_views(sorted@), record_views(records@)),
{
    let ghost orig = record_views(records@);
    let mut input = records;
    let mut out: Vec<SessionRecord> = Vec::new();
    let ghost mut taken: int = 0;
    assert(orig.skip(0) =~= orig);
    assert(orig.take(0) =~= record_views(out@));
    while input.len() > 0
        invariant
            0 <= taken <= orig.len(),
            record_views(input@) == orig.skip(taken),
            sorted_by_start(record_views(out@)),
            forall|t: u64| #[trigger] record_views(out@).filter(started_at(t)) == orig.take(
                taken,
            ).filter(started_at(t)),
        decreases input.len(),
    {
        let ghost before_input = input@;
        let r = input.remove(0);
        proof {
            assert(record_views(before_input)[0] == before_input[0]@);
            assert(record_views(before_input).len() == before_input.len());
            assert(taken < orig.len());
            assert(orig.skip(taken)[0] == orig[taken]);
            assert(r@ == orig[taken]);
            assert(record_views(input@) =~= record_views(before_input).skip(1));
            assert(orig.skip(taken).skip(1) =~= orig.skip(taken + 1));
        }
        let key = r.started_unix_seconds;
        let mut pos: usize = 0;
        while pos < out.len() && out[pos].started_unix_seconds <= key
            invariant
                pos <= out.len(),
                forall|k: int| 0 <= k < pos ==> out@[k].started_unix_seconds <= key,
            decreases out.len() - pos,
        {
            pos = pos + 1;
        }
        let ghost old_views = record_views(out@);
        proof {
            assert forall|k: int| pos <= k < old_views.len() implies old_views[k].started_unix_seconds
                > key by {
                assert(old_views[pos as int].started_unix_seconds > key);
            }
            lemma_insert_by_start(old_views, pos as int, r@);
        }
        out.insert(pos, r);
        proof {
            assert(record_views(out@) =~= old_views.insert(pos as int, r@));
            assert(orig.take(taken + 1) =~= orig.take(taken).push(r@));
            assert forall|t: u64| #[trigger] record_views(out@).filter(started_at(t)) == orig.take(
                taken + 1,
            ).filter(started_at(t)) by {
                old_views.lemma_filter_push(r@, started_at(t));
                orig.take(taken).lemma_filter_push(r@, started_at(t));
            }
            taken = taken + 1;
        }
    }
    assert(orig.take(taken) =~= orig);
    out
}

} // verus!
