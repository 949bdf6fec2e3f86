//! Durable, capability-scoped messages from desktop-launched CLIs.
//!
//! A channel is a directory that belongs to one CLI; its files are the queue.
//! This module holds the records those files carry and the rules that decide
//! whether a record may be believed. `channel` works on the contents of one
//! channel directory, `manager` on all channels of a session. Reading and
//! writing the directories is left to the caller.

pub mod acknowledging;
pub mod believing;
pub mod channel;
pub mod delivery;
pub mod enqueue;
pub mod lapsing;
pub mod laws;
pub mod leases;
pub mod lifecycle;
pub mod manager;
pub mod order;
pub mod private;
pub mod reconcile;
pub mod registry;
pub mod settled;

use vstd::prelude::*;
use vstd::string::*;

use crate::random;
use crate::text;

verus! {

pub const QUEUE_SCHEMA_VERSION: u32 = 1;

pub const MAX_CHANNELS: usize = 32;

pub const MAX_MESSAGES_PER_CHANNEL: usize = 1_000;

pub const MAX_CHANNEL_BYTES: usize = 8_388_608;

pub const MAX_MESSAGE_BYTES: usize = 65_536;

pub const MAX_CORRELATION_ID_BYTES: usize = 128;

pub const MAX_DRAIN_BYTES: usize = 1_048_576;

/// Ten minutes.
pub const LEASE_DURATION_MS: u64 = 600_000;

/// One day.
pub const RECEIPT_DURATION_MS: u64 = 86_400_000;

/// One hour.
pub const STALE_RECORD_DURATION_MS: u64 = 3_600_000;

#[derive(Debug, Clone, Copy, PartialEq, Eq, Structural)]
pub enum QueueErrorKind {
    Invalid,
    PermissionDenied,
    Full,
    Corrupt,
    NotFound,
    CliNotFound,
    LeaseNotFound,
    Closed,
    LeaseExpired,
    Io,
}

#[derive(Debug)]
pub struct QueueError {
    pub kind: QueueErrorKind,
    pub message: String,
}

/// What a rule objects to, if it does.
pub type Objection = Option<(QueueErrorKind, Seq<char>)>;

pub open spec fn objection<T>(r: Result<T, QueueError>) -> Objection {
    match r {
        Ok(_) => None,
        Err(e) => Some((e.kind, e.message@)),
    }
}

impl QueueError {
    pub fn new(kind: QueueErrorKind, message: &str) -> (e: QueueError)
        ensures
            e.kind == kind,
            e.message@ == message@,
    {
        QueueError { kind, message: message.to_string() }
    }

    pub fn kind(&self) -> (k: QueueErrorKind)
        ensures
            k == self.kind,
    {
        self.kind
    }

    /// The text shown to a user.
    pub fn text(&self) -> (s: String)
        ensures
            s@ == self.message@,
    {
        self.message.clone()
    }
}

impl Clone for QueueError {
    fn clone(&self) -> (r: Self)
        ensures
            r == *self,
    {
        QueueError { kind: self.kind, message: self.message.clone() }
    }
}

#[derive(Debug, Clone, Copy, PartialEq, Eq, Structural)]
pub enum CliState {
    Creating,
    Active,
    Closed,
}

#[derive(Debug)]
pub struct CliIdentity {
    pub cli_id: String,
    pub pane_id: String,
    pub terminal_id: String,
    pub workspace_id: String,
    pub tab_id: String,
    pub name: String,
    pub cwd: String,
    pub state: CliState,
    pub launch_marker: Option<String>,
}

/// The identity as plain text.
pub struct IdentityView {
    pub cli_id: Seq<char>,
    pub pane_id: Seq<char>,
    pub terminal_id: Seq<char>,
    pub workspace_id: Seq<char>,
    pub tab_id: Seq<char>,
    pub name: Seq<char>,
    pub cwd: Seq<char>,
    pub state: CliState,
    pub launch_marker: Option<Seq<char>>,
}

impl View for CliIdentity {
    type V = IdentityView;

    open spec fn view(&self) -> IdentityView {
        IdentityView {
            cli_id: self.cli_id@,
            pane_id: self.pane_id@,
            terminal_id: self.terminal_id@,
            workspace_id: self.workspace_id@,
            tab_id: self.tab_id@,
            name: self.name@,
            cwd: self.cwd@,
            state: self.state,
            launch_marker: text::opt_view(self.launch_marker),
        }
    }
}

impl Clone for CliIdentity {
    fn clone(&self) -> (r: Self)
        ensures
            r == *self,
    {
        CliIdentity {
            cli_id: self.cli_id.clone(),
            pane_id: self.pane_id.clone(),
            terminal_id: self.terminal_id.clone(),
            workspace_id: self.workspace_id.clone(),
            tab_id: self.tab_id.clone(),
            name: self.name.clone(),
            cwd: self.cwd.clone(),
            state: self.state,
            launch_marker: text::clone_opt(&self.launch_marker),
        }
    }
}

impl CliIdentity {
    /// Field-by-field equality.
    pub fn same(&self, other: &CliIdentity) -> (r: bool)
        ensures
            r == (self@ == other@),
    {
        text::str_eq(self.cli_id.as_str(), other.cli_id.as_str()) && text::str_eq(
            self.pane_id.as_str(),
            other.pane_id.as_str(),
        ) && text::str_eq(self.terminal_id.as_str(), other.terminal_id.as_str()) && text::str_eq(
            self.workspace_id.as_str(),
            other.workspace_id.as_str(),
        ) && text::str_eq(self.tab_id.as_str(), other.tab_id.as_str()) && text::str_eq(
            self.name.as_str(),
            other.name.as_str(),
        ) && text::str_eq(self.cwd.as_str(), other.cwd.as_str()) && self.state == other.state
            && text::opt_str_eq(&self.launch_marker, &other.launch_marker)
    }
}

#[derive(Debug)]
pub struct ChannelHandle {
    pub cli_id: String,
    pub launch_marker: String,
    pub env: Vec<(String, String)>,
    pub channel_dir: String,
}

#[derive(Debug)]
pub struct QueuedMessage {
    pub schema_version: u32,
    pub message_id: String,
    pub sequence: u64,
    pub cli_id: String,
    pub created_at_unix_ms: u64,
    pub kind: String,
    pub correlation_id: Option<String>,
    pub text: String,
}

impl Clone for QueuedMessage {
    fn clone(&self) -> (r: Self)
        ensures
            r == *self,
    {
        QueuedMessage {
            schema_version: self.schema_version,
            message_id: self.message_id.clone(),
            sequence: self.sequence,
            cli_id: self.cli_id.clone(),
            created_at_unix_ms: self.created_at_unix_ms,
            kind: self.kind.clone(),
            correlation_id: text::clone_opt(&self.correlation_id),
            text: self.text.clone(),
        }
    }
}

#[derive(Debug)]
pub struct EnqueueReceipt {
    pub cli_id: String,
    pub message_id: String,
    pub sequence: u64,
    pub created_at_unix_ms: u64,
}

#[derive(Debug)]
pub struct DrainResult {
    pub lease_id: String,
    pub lease_expires_at_unix_ms: u64,
    pub messages: Vec<QueuedMessage>,
    pub remaining: usize,
    pub quarantined: usize,
}

#[derive(Debug)]
pub struct AckResult {
    pub lease_id: String,
    pub already_acked: bool,
    pub deleted: usize,
}

#[derive(Debug)]
pub struct ChannelMetadata {
    pub schema_version: u32,
    pub cli_id: String,
    pub session: String,
    pub name: String,
    pub cwd: String,
    pub state: CliState,
    pub next_sequence: u64,
    pub created_at_unix_ms: u64,
    pub updated_at_unix_ms: u64,
    pub launch_marker: Option<String>,
    pub identity: Option<CliIdentity>,
}

#[derive(Debug)]
pub struct IndexEntry {
    pub schema_version: u32,
    pub channel_dir: String,
    pub identity: CliIdentity,
}

impl Clone for IndexEntry {
    fn clone(&self) -> (r: Self)
        ensures
            r == *self,
    {
        IndexEntry {
            schema_version: self.schema_version,
            channel_dir: self.channel_dir.clone(),
            identity: self.identity.clone(),
        }
    }
}

#[derive(Debug)]
pub struct LeaseMetadata {
    pub schema_version: u32,
    pub cli_id: String,
    pub lease_id: String,
    pub expires_at_unix_ms: u64,
    pub files: Vec<String>,
}

#[derive(Debug)]
pub struct AckReceipt {
    pub schema_version: u32,
    pub cli_id: String,
    pub lease_id: String,
    pub acked_at_unix_ms: u64,
    pub deleted: usize,
}

pub open spec fn is_id_char(c: char) -> bool {
    text::is_alnum(c) || c == '_'
}

pub open spec fn is_correlation_char(c: char) -> bool {
    text::is_alnum(c) || c == '.' || c == '_' || c == ':' || c == '-'
}

pub open spec fn is_hex_char(c: char) -> bool {
    text::is_digit(c) || 'a' <= c <= 'f'
}

/// Letters, digits and `_`, between one and two hundred and fifty-six bytes.
pub open spec fn valid_id(value: Seq<char>) -> bool {
    &&& value.len() > 0
    &&& text::utf8_len(value) <= 256
    &&& forall|i: int| 0 <= i < value.len() ==> is_id_char(#[trigger] value[i])
}

pub open spec fn id_objection(label: Seq<char>, value: Seq<char>) -> Objection {
    if valid_id(value) {
        None
    } else {
        Some((QueueErrorKind::Invalid, label + " is invalid"@))
    }
}

/// `r` is an identifier that was drawn at random: `prefix` and the hexadecimal
/// digits of `bytes` bytes. Or the random source failed.
pub open spec fn id_drawn(prefix: Seq<char>, bytes: nat, r: Result<String, QueueError>) -> bool {
    match r {
        Ok(id) => exists|b: Seq<u8>| b.len() == bytes && id@ == prefix + #[trigger] text::hex_of(b),
        Err(e) => e.kind == QueueErrorKind::Io && text::has_prefix(
            e.message@,
            "secure random failed: "@,
        ),
    }
}

/// Draws an identifier.
pub fn draw_id(prefix: &str, bytes: usize) -> (r: Result<String, QueueError>)
    ensures
        id_drawn(prefix@, bytes as nat, r),
{
    match random::random_hex(bytes) {
        Ok(hex) => {
            let mut id = prefix.to_string();
            id.append(hex.as_str());
            Ok(id)
        },
        Err(cause) => {
            let mut message = "secure random failed: ".to_string();
            message.append(cause.as_str());
            assert(message@.take("secure random failed: "@.len() as int)
                =~= "secure random failed: "@);
            Err(QueueError { kind: QueueErrorKind::Io, message })
        },
    }
}

pub fn id_chars_only(value: &str) -> (r: bool)
    ensures
        r == (forall|i: int| 0 <= i < value@.len() ==> is_id_char(#[trigger] value@[i])),
{
    let v = text::chars_of(value);
    let mut i: usize = 0;
    while i < v.len()
        invariant
            i <= v@.len(),
            v@ == value@,
            forall|j: int| 0 <= j < i ==> is_id_char(#[trigger] value@[j]),
        decreases v@.len() - i,
    {
        if !(text::alnum(v[i]) || v[i] == '_') {
            assert(!is_id_char(value@[i as int]));
            return false;
        }
        i += 1;
    }
    true
}

/// Accepts an opaque identifier.
pub fn validate_id(label: &str, value: &str) -> (r: Result<(), QueueError>)
    ensures
        objection(r) == id_objection(label@, value@),
{
    if value.is_empty() || text::byte_len(value) > 256 || !id_chars_only(value) {
        let mut message = label.to_string();
        message.append(" is invalid");
        return Err(QueueError { kind: QueueErrorKind::Invalid, message });
    }
    Ok(())
}

/// A name that stays inside its directory.
pub open spec fn valid_component(value: Seq<char>) -> bool {
    &&& value.len() > 0
    &&& value != "."@
    &&& value != ".."@
    &&& !value.contains('/')
    &&& !value.contains('\0')
}

pub open spec fn component_objection(label: Seq<char>, value: Seq<char>) -> Objection {
    if valid_component(value) {
        None
    } else {
        Some((QueueErrorKind::Corrupt, label + " contains an invalid path component"@))
    }
}

/// Accepts a single path component.
pub fn validate_component(label: &str, value: &str) -> (r: Result<(), QueueError>)
    ensures
        objection(r) == component_objection(label@, value@),
{
    if value.is_empty() || text::str_eq(value, ".") || text::str_eq(value, "..")
        || text::contains_char(value, '/') || text::contains_char(value, '\0') {
        let mut message = label.to_string();
        message.append(" contains an invalid path component");
        return Err(QueueError { kind: QueueErrorKind::Corrupt, message });
    }
    Ok(())
}

pub open spec fn valid_kind(kind: Seq<char>) -> bool {
    kind == "info"@ || kind == "progress"@ || kind == "result"@ || kind == "question"@ || kind
        == "error"@
}

pub open spec fn valid_correlation_id(id: Seq<char>) -> bool {
    &&& id.len() > 0
    &&& text::utf8_len(id) <= MAX_CORRELATION_ID_BYTES
    &&& forall|i: int| 0 <= i < id.len() ==> is_correlation_char(#[trigger] id[i])
}

pub open spec fn message_objection(
    kind: Seq<char>,
    correlation_id: Option<Seq<char>>,
    text: Seq<char>,
) -> Objection {
    if !valid_kind(kind) {
        Some(
            (
                QueueErrorKind::Invalid,
                "message kind must be info, progress, result, question, or error"@,
            ),
        )
    } else if text::utf8_len(text) > MAX_MESSAGE_BYTES {
        Some((QueueErrorKind::Invalid, "message must contain at most 65536 UTF-8 bytes"@))
    } else if correlation_id is Some && !valid_correlation_id(correlation_id->0) {
        Some(
            (
                QueueErrorKind::Invalid,
                "correlation id must use 1 to 128 ASCII letters, numbers, '.', '_', ':', or '-'"@,
            ),
        )
    } else {
        None
    }
}

fn correlation_chars_only(value: &str) -> (r: bool)
    ensures
        r == (forall|i: int|
            0 <= i < value@.len() ==> is_correlation_char(#[trigger] value@[i])),
{
    let v = text::chars_of(value);
    let mut i: usize = 0;
    while i < v.len()
        invariant
            i <= v@.len(),
            v@ == value@,
            forall|j: int| 0 <= j < i ==> is_correlation_char(#[trigger] value@[j]),
        decreases v@.len() - i,
    {
        let c = v[i];
        if !(text::alnum(c) || c == '.' || c == '_' || c == ':' || c == '-') {
            assert(!is_correlation_char(value@[i as int]));
            return false;
        }
        i += 1;
    }
    true
}

/// Accepts the parts of a message that its sender chooses.
pub fn validate_message(
    kind: &str,
    correlation_id: &Option<String>,
    text: &str,
) -> (r: Result<(), QueueError>)
    ensures
        objection(r) == message_objection(kind@, text::opt_view(*correlation_id), text@),
{
    if !(text::str_eq(kind, "info") || text::str_eq(kind, "progress") || text::str_eq(
        kind,
        "result",
    ) || text::str_eq(kind, "question") || text::str_eq(kind, "error")) {
        return Err(
            QueueError::new(
                QueueErrorKind::Invalid,
                "message kind must be info, progress, result, question, or error",
            ),
        );
    }
    if text::byte_len(text) > MAX_MESSAGE_BYTES {
        return Err(
            QueueError::new(
                QueueErrorKind::Invalid,
                "message must contain at most 65536 UTF-8 bytes",
            ),
        );
    }
    if let Some(id) = correlation_id {
        if id.as_str().is_empty() || text::byte_len(id.as_str()) > MAX_CORRELATION_ID_BYTES
            || !correlation_chars_only(id.as_str()) {
            return Err(
                QueueError::new(
                    QueueErrorKind::Invalid,
                    "correlation id must use 1 to 128 ASCII letters, numbers, '.', '_', ':', or '-'",
                ),
            );
        }
    }
    Ok(())
}

pub open spec fn marker_objection(marker: Option<Seq<char>>) -> Objection {
    match marker {
        Some(m) => id_objection("launch_marker"@, m),
        None => None,
    }
}

fn validate_marker(marker: &Option<String>) -> (r: Result<(), QueueError>)
    ensures
        objection(r) == marker_objection(text::opt_view(*marker)),
{
    match marker {
        Some(m) => validate_id("launch_marker", m.as_str()),
        None => Ok(()),
    }
}

/// The identity a channel record carries names another CLI or another launch.
pub open spec fn foreign_identity(metadata: ChannelMetadata, cli_id: Seq<char>) -> bool {
    match metadata.identity {
        Some(identity) => identity@.cli_id != cli_id || identity@.launch_marker
            != text::opt_view(metadata.launch_marker),
        None => false,
    }
}

pub open spec fn metadata_objection(
    metadata: ChannelMetadata,
    cli_id: Seq<char>,
    session: Seq<char>,
) -> Objection {
    if marker_objection(text::opt_view(metadata.launch_marker)) is Some {
        marker_objection(text::opt_view(metadata.launch_marker))
    } else if metadata.schema_version != QUEUE_SCHEMA_VERSION || metadata.cli_id@ != cli_id
        || metadata.session@ != session || foreign_identity(metadata, cli_id) {
        Some((QueueErrorKind::Corrupt, "desktop queue channel metadata is invalid"@))
    } else {
        None
    }
}

/// Accepts the record of a channel that belongs to `cli_id` in `session`.
pub fn validate_channel_metadata(
    metadata: &ChannelMetadata,
    cli_id: &str,
    session: &str,
) -> (r: Result<(), QueueError>)
    ensures
        objection(r) == metadata_objection(*metadata, cli_id@, session@),
{
    match validate_marker(&metadata.launch_marker) {
        Ok(()) => {},
        Err(e) => return Err(e),
    }
    let foreign = match &metadata.identity {
        Some(identity) => !text::str_eq(identity.cli_id.as_str(), cli_id) || !text::opt_str_eq(
            &identity.launch_marker,
            &metadata.launch_marker,
        ),
        None => false,
    };
    if metadata.schema_version != QUEUE_SCHEMA_VERSION || !text::str_eq(
        metadata.cli_id.as_str(),
        cli_id,
    ) || !text::str_eq(metadata.session.as_str(), session) || foreign {
        return Err(
            QueueError::new(
                QueueErrorKind::Corrupt,
                "desktop queue channel metadata is invalid",
            ),
        );
    }
    Ok(())
}

pub open spec fn valid_capability(s: Seq<char>) -> bool {
    &&& text::utf8_len(s) == 64
    &&& forall|i: int| 0 <= i < s.len() ==> is_hex_char(#[trigger] s[i])
}

fn hex_chars_only(value: &str) -> (r: bool)
    ensures
        r == (forall|i: int| 0 <= i < value@.len() ==> is_hex_char(#[trigger] value@[i])),
{
    let v = text::chars_of(value);
    let mut i: usize = 0;
    while i < v.len()
        invariant
            i <= v@.len(),
            v@ == value@,
            forall|j: int| 0 <= j < i ==> is_hex_char(#[trigger] value@[j]),
        decreases v@.len() - i,
    {
        let c = v[i];
        if !(text::digit(c) || ('a' <= c && c <= 'f')) {
            assert(!is_hex_char(value@[i as int]));
            return false;
        }
        i += 1;
    }
    true
}

pub open spec fn channel_name_objection(name: Seq<char>) -> Objection {
    if component_objection("channel directory"@, name) is Some {
        component_objection("channel directory"@, name)
    } else {
        match text::split_first(name, "."@) {
            None => Some((QueueErrorKind::Corrupt, "desktop queue channel name is invalid"@)),
            Some((cli_id, capability)) => if id_objection("cli_id"@, cli_id) is Some {
                id_objection("cli_id"@, cli_id)
            } else if !valid_capability(capability) {
                Some((QueueErrorKind::Corrupt, "desktop queue channel capability is invalid"@))
            } else {
                None
            },
        }
    }
}

/// Splits a channel directory name into the CLI it belongs to and its
/// capability.
pub fn parse_channel_name(channel_name: &str) -> (r: Result<(String, String), QueueError>)
    ensures
        objection(r) == channel_name_objection(channel_name@),
        r matches Ok((cli_id, capability)) ==> text::split_first(channel_name@, "."@) == Some(
            (cli_id@, capability@),
        ),
{
    match validate_component("channel directory", channel_name) {
        Ok(()) => {},
        Err(e) => return Err(e),
    }
    let (cli_id, capability) = match text::split_once(channel_name, ".") {
        Some(parts) => parts,
        None => return Err(
            QueueError::new(QueueErrorKind::Corrupt, "desktop queue channel name is invalid"),
        ),
    };
    match validate_id("cli_id", cli_id.as_str()) {
        Ok(()) => {},
        Err(e) => return Err(e),
    }
    if text::byte_len(capability.as_str()) != 64 || !hex_chars_only(capability.as_str()) {
        return Err(
            QueueError::new(
                QueueErrorKind::Corrupt,
                "desktop queue channel capability is invalid",
            ),
        );
    }
    Ok((cli_id, capability))
}

/// The CLI that a well-formed channel directory name belongs to.
pub open spec fn channel_owner(name: Seq<char>) -> Seq<char> {
    (text::split_first(name, "."@)->0).0
}

pub open spec fn index_objection(entry: IndexEntry, cli_id: Seq<char>) -> Objection {
    if id_objection("cli_id"@, cli_id) is Some {
        id_objection("cli_id"@, cli_id)
    } else if marker_objection(entry.identity@.launch_marker) is Some {
        marker_objection(entry.identity@.launch_marker)
    } else if channel_name_objection(entry.channel_dir@) is Some {
        channel_name_objection(entry.channel_dir@)
    } else if entry.schema_version != QUEUE_SCHEMA_VERSION || entry.identity@.cli_id != cli_id
        || channel_owner(entry.channel_dir@) != cli_id {
        Some(
            (
                QueueErrorKind::Corrupt,
                "desktop CLI registry entry "@ + cli_id + " is invalid"@,
            ),
        )
    } else {
        None
    }
}

/// Accepts the registry entry stored for `cli_id`.
pub fn validate_index_entry(entry: &IndexEntry, cli_id: &str) -> (r: Result<(), QueueError>)
    ensures
        objection(r) == index_objection(*entry, cli_id@),
{
    match validate_id("cli_id", cli_id) {
        Ok(()) => {},
        Err(e) => return Err(e),
    }
    match validate_marker(&entry.identity.launch_marker) {
        Ok(()) => {},
        Err(e) => return Err(e),
    }
    let owner = match parse_channel_name(entry.channel_dir.as_str()) {
        Ok((owner, _)) => owner,
        Err(e) => return Err(e),
    };
    if entry.schema_version != QUEUE_SCHEMA_VERSION || !text::str_eq(
        entry.identity.cli_id.as_str(),
        cli_id,
    ) || !text::str_eq(owner.as_str(), cli_id) {
        let mut message = "desktop CLI registry entry ".to_string();
        message.append(cli_id);
        message.append(" is invalid");
        return Err(QueueError { kind: QueueErrorKind::Corrupt, message });
    }
    Ok(())
}

/// The identity that stands in for one that was never recorded.
pub fn placeholder_identity(metadata: &ChannelMetadata) -> (r: CliIdentity)
    ensures
        r@ == placeholder_view(*metadata),
{
    CliIdentity {
        cli_id: metadata.cli_id.clone(),
        pane_id: String::new(),
        terminal_id: String::new(),
        workspace_id: String::new(),
        tab_id: String::new(),
        name: metadata.name.clone(),
        cwd: metadata.cwd.clone(),
        state: metadata.state,
        launch_marker: text::clone_opt(&metadata.launch_marker),
    }
}

pub open spec fn placeholder_view(metadata: ChannelMetadata) -> IdentityView {
    IdentityView {
        cli_id: metadata.cli_id@,
        pane_id: Seq::empty(),
        terminal_id: Seq::empty(),
        workspace_id: Seq::empty(),
        tab_id: Seq::empty(),
        name: metadata.name@,
        cwd: metadata.cwd@,
        state: metadata.state,
        launch_marker: text::opt_view(metadata.launch_marker),
    }
}

/// `00000000000000000007-msg_ab.json` for sequence 7 and id `msg_ab`.
pub open spec fn message_file_name(sequence: u64, message_id: Seq<char>) -> Seq<char> {
    text::dec_padded(sequence as nat, 20) + ("-"@ + message_id + ".json"@)
}

pub fn file_name_for(sequence: u64, message_id: &str) -> (r: String)
    ensures
        r@ == message_file_name(sequence, message_id@),
{
    let mut name = text::dec_string_20(sequence);
    name.append("-");
    name.append(message_id);
    name.append(".json");
    assert(name@ =~= message_file_name(sequence, message_id@));
    name
}

pub open spec fn queued_message_objection(
    file_name: Seq<char>,
    message: QueuedMessage,
    cli_id: Seq<char>,
) -> Objection {
    if id_objection("message_id"@, message.message_id@) is Some {
        id_objection("message_id"@, message.message_id@)
    } else if message_objection(
        message.kind@,
        text::opt_view(message.correlation_id),
        message.text@,
    ) is Some {
        message_objection(message.kind@, text::opt_view(message.correlation_id), message.text@)
    } else if message.schema_version != QUEUE_SCHEMA_VERSION || message.cli_id@ != cli_id
        || file_name != message_file_name(message.sequence, message.message_id@) {
        Some((QueueErrorKind::Corrupt, "queued desktop message metadata is invalid"@))
    } else {
        None
    }
}

/// Accepts a message stored under `file_name` for `cli_id`.
pub fn validate_queued_message(
    file_name: &str,
    message: &QueuedMessage,
    cli_id: &str,
) -> (r: Result<(), QueueError>)
    ensures
        objection(r) == queued_message_objection(file_name@, *message, cli_id@),
{
    match validate_id("message_id", message.message_id.as_str()) {
        Ok(()) => {},
        Err(e) => return Err(e),
    }
    match validate_message(message.kind.as_str(), &message.correlation_id, message.text.as_str()) {
        Ok(()) => {},
        Err(e) => return Err(e),
    }
    let expected = file_name_for(message.sequence, message.message_id.as_str());
    if message.schema_version != QUEUE_SCHEMA_VERSION || !text::str_eq(
        message.cli_id.as_str(),
        cli_id,
    ) || !text::str_eq(file_name, expected.as_str()) {
        return Err(
            QueueError::new(
                QueueErrorKind::Corrupt,
                "queued desktop message metadata is invalid",
            ),
        );
    }
    Ok(())
}

pub open spec fn receipt_objection(
    receipt: AckReceipt,
    cli_id: Seq<char>,
    lease_id: Seq<char>,
) -> Objection {
    if receipt.schema_version != QUEUE_SCHEMA_VERSION || receipt.cli_id@ != cli_id
        || receipt.lease_id@ != lease_id {
        Some(
            (
                QueueErrorKind::Corrupt,
                "acknowledgment receipt does not match the requested lease"@,
            ),
        )
    } else {
        None
    }
}

/// Accepts the receipt of an acknowledged lease.
pub fn validate_receipt(
    receipt: &AckReceipt,
    cli_id: &str,
    lease_id: &str,
) -> (r: Result<(), QueueError>)
    ensures
        objection(r) == receipt_objection(*receipt, cli_id@, lease_id@),
{
    if receipt.schema_version != QUEUE_SCHEMA_VERSION || !text::str_eq(
        receipt.cli_id.as_str(),
        cli_id,
    ) || !text::str_eq(receipt.lease_id.as_str(), lease_id) {
        return Err(
            QueueError::new(
                QueueErrorKind::Corrupt,
                "acknowledgment receipt does not match the requested lease",
            ),
        );
    }
    Ok(())
}

pub open spec fn receipt_file_objection(
    stem: Seq<char>,
    receipt: AckReceipt,
    cli_id: Seq<char>,
) -> Objection {
    if id_objection("lease_id"@, stem) is Some {
        id_objection("lease_id"@, stem)
    } else {
        receipt_objection(receipt, cli_id, stem)
    }
}

/// Accepts a receipt stored under the file stem `stem`.
pub fn validate_receipt_file(
    stem: &str,
    receipt: &AckReceipt,
    cli_id: &str,
) -> (r: Result<(), QueueError>)
    ensures
        objection(r) == receipt_file_objection(stem@, *receipt, cli_id@),
{
    match validate_id("lease_id", stem) {
        Ok(()) => {},
        Err(e) => return Err(e),
    }
    validate_receipt(receipt, cli_id, stem)
}

} // verus!
