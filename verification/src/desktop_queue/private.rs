//! Which files and directories the queue believes, and where it keeps them.

use vstd::prelude::*;
use vstd::string::*;

use super::{Objection, QueueError, QueueErrorKind};
use crate::digest;
use crate::text;

verus! {

pub const PRIVATE_DIR_MODE: u32 = 0o700;

pub const PRIVATE_FILE_MODE: u32 = 0o600;

/// What a failed file operation is told apart by.
#[derive(Debug, Clone, Copy, PartialEq, Eq, Structural)]
pub enum IoFault {
    NotFound,
    PermissionDenied,
    Other,
}

/// What is known of an entry of the file system, without following links.
#[derive(Debug, Clone, Copy, PartialEq, Eq, Structural)]
pub struct EntryFacts {
    pub is_dir: bool,
    pub is_file: bool,
    pub is_symlink: bool,
    pub uid: u32,
    pub mode: u32,
    pub links: u64,
}

pub open spec fn io_kind(fault: IoFault) -> QueueErrorKind {
    match fault {
        IoFault::PermissionDenied => QueueErrorKind::PermissionDenied,
        _ => QueueErrorKind::Io,
    }
}

impl QueueError {
    /// A failed file operation: what was tried, and the system's own words.
    pub fn io(context: &str, fault: IoFault, cause: &str) -> (e: QueueError)
        ensures
            e.kind == io_kind(fault),
            e.message@ == context@ + ": "@ + cause@,
    {
        let mut message = context.to_string();
        message.append(": ");
        message.append(cause);
        let kind = match fault {
            IoFault::PermissionDenied => QueueErrorKind::PermissionDenied,
            _ => QueueErrorKind::Io,
        };
        QueueError { kind, message }
    }
}

pub open spec fn private_dir(f: EntryFacts, euid: u32) -> bool {
    f.is_dir && f.uid == euid && f.mode & 0o777 == PRIVATE_DIR_MODE
}

pub open spec fn private_file(f: EntryFacts, euid: u32) -> bool {
    f.is_file && f.uid == euid && f.mode & 0o777 == PRIVATE_FILE_MODE && f.links == 1
}

pub open spec fn private_dir_objection(
    path: Seq<char>,
    found: Result<EntryFacts, (IoFault, String)>,
    euid: u32,
) -> Objection {
    match found {
        Err((fault, cause)) => Some(
            (
                match fault {
                    IoFault::NotFound => QueueErrorKind::NotFound,
                    IoFault::PermissionDenied => QueueErrorKind::PermissionDenied,
                    IoFault::Other => QueueErrorKind::Io,
                },
                "inspect private directory "@ + path + ": "@ + cause@,
            ),
        ),
        Ok(f) => if private_dir(f, euid) {
            None
        } else {
            Some(
                (
                    QueueErrorKind::PermissionDenied,
                    "private directory "@ + path
                        + " must be owned by the current user with mode 0700"@,
                ),
            )
        },
    }
}

/// A directory is used only where it is the user's alone.
pub fn validate_private_dir(
    path: &str,
    found: Result<EntryFacts, (IoFault, String)>,
    euid: u32,
) -> (r: Result<(), QueueError>)
    ensures
        super::objection(r) == private_dir_objection(path@, found, euid),
{
    match found {
        Err((fault, cause)) => {
            let mut message = "inspect private directory ".to_string();
            message.append(path);
            message.append(": ");
            message.append(cause.as_str());
            let kind = match fault {
                IoFault::NotFound => QueueErrorKind::NotFound,
                IoFault::PermissionDenied => QueueErrorKind::PermissionDenied,
                IoFault::Other => QueueErrorKind::Io,
            };
            Err(QueueError { kind, message })
        },
        Ok(f) => {
            if f.is_dir && f.uid == euid && f.mode & 0o777 == PRIVATE_DIR_MODE {
                return Ok(());
            }
            let mut message = "private directory ".to_string();
            message.append(path);
            message.append(" must be owned by the current user with mode 0700");
            Err(QueueError { kind: QueueErrorKind::PermissionDenied, message })
        },
    }
}

pub open spec fn private_file_objection(
    path: Seq<char>,
    f: EntryFacts,
    euid: u32,
) -> Objection {
    if private_file(f, euid) {
        None
    } else {
        Some(
            (
                QueueErrorKind::PermissionDenied,
                "private file "@ + path
                    + " must be regular, singly linked, current-user owned, and mode 0600"@,
            ),
        )
    }
}

/// An open file is read or written only where it is the user's alone.
pub fn validate_open_private_file(path: &str, f: EntryFacts, euid: u32) -> (r: Result<
    (),
    QueueError,
>)
    ensures
        super::objection(r) == private_file_objection(path@, f, euid),
{
    if f.is_file && f.uid == euid && f.mode & 0o777 == PRIVATE_FILE_MODE && f.links == 1 {
        return Ok(());
    }
    let mut message = "private file ".to_string();
    message.append(path);
    message.append(" must be regular, singly linked, current-user owned, and mode 0600");
    Err(QueueError { kind: QueueErrorKind::PermissionDenied, message })
}

/// A name with something before its `.json`.
pub open spec fn is_json_name(name: Seq<char>) -> bool {
    name.len() > 5 && text::has_suffix(name, ".json"@)
}

pub open spec fn entry_objection(path: Seq<char>, f: EntryFacts) -> Objection {
    if f.is_symlink {
        Some(
            (
                QueueErrorKind::PermissionDenied,
                "desktop queue entry "@ + path + " may not be a symlink"@,
            ),
        )
    } else {
        None
    }
}

/// Whether a directory entry is a record of the queue. A link among the entries
/// spoils the whole directory.
pub fn is_record_entry(path: &str, name: &str, f: EntryFacts) -> (r: Result<bool, QueueError>)
    ensures
        super::objection(r) == entry_objection(path@, f),
        r matches Ok(b) ==> b == (f.is_file && is_json_name(name@)),
{
    if f.is_symlink {
        let mut message = "desktop queue entry ".to_string();
        message.append(path);
        message.append(" may not be a symlink");
        return Err(QueueError { kind: QueueErrorKind::PermissionDenied, message });
    }
    let long = text::chars_of(name).len() > 5;
    Ok(f.is_file && long && text::suffixed(name, ".json"))
}

/// The directory name under which a session's queue is kept: the first eight
/// bytes of the digest of its socket path, in hexadecimal.
pub fn session_key(socket_path: &Vec<u8>) -> (r: String)
    ensures
        r@ == text::hex_of(digest::sha256_of(socket_path@).take(8)),
{
    let full = digest::sha256(socket_path.as_slice());
    let mut short: Vec<u8> = Vec::new();
    let mut i: usize = 0;
    while i < 8
        invariant
            i <= 8,
            full@.len() == 32,
            short@ == full@.take(i as int),
        decreases 8 - i,
    {
        short.push(full[i]);
        i += 1;
        assert(short@ =~= full@.take(i as int));
    }
    text::hex_bytes(short.as_slice())
}

/// The name that an unreadable file is set aside under.
pub fn quarantine_name(tag: &str, file_name: &str) -> (r: String)
    ensures
        r@ == tag@ + "-"@ + file_name@,
{
    let mut name = tag.to_string();
    name.append("-");
    name.append(file_name);
    name
}

/// Where a file goes that cannot be believed: its own name, behind a tag that
/// was drawn for it.
pub fn quarantine_destination(file_name: &str) -> (r: Result<String, QueueError>)
    ensures
        exists|tag: Result<String, QueueError>| #[trigger]
            super::id_drawn(""@, 8, tag) && match tag {
                Ok(t) => (r matches Ok(name) && name@ == t@ + "-"@ + file_name@),
                Err(e) => r == Err::<String, QueueError>(e),
            },
{
    let drawn = super::draw_id("", 8);
    assert(super::id_drawn(""@, 8, drawn));
    match drawn {
        Ok(tag) => Ok(quarantine_name(tag.as_str(), file_name)),
        Err(e) => Err(e),
    }
}

/// The name under which a file is written before it takes its place.
pub fn temporary_name() -> (r: Result<String, QueueError>)
    ensures
        super::id_drawn(".tmp-"@, 12, r),
{
    super::draw_id(".tmp-", 12)
}

} // verus!
