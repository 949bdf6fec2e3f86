//! What a tool call may ask for.

use vstd::prelude::*;
use vstd::string::*;

use super::{BridgeError, MAX_DRAIN_LIMIT, PANE_READ_MAX_BYTES};
use crate::api::schema::agents::AgentStartParams;
use crate::api::schema::common::{Method, OutputMatch, PaneSendInputParams};
use crate::desktop_queue;
use crate::text;

verus! {

pub const MAX_ARGV: usize = 64;

pub const MAX_ARGV_BYTES: usize = 32_768;

pub const MAX_NAME_BYTES: usize = 64;

pub const MAX_ENV_ENTRIES: usize = 64;

pub const MAX_ENV_BYTES: usize = 32_768;

pub const MAX_ENV_KEY_BYTES: usize = 256;

pub const MAX_ENV_VALUE_BYTES: usize = 8_192;

pub const MAX_INPUT_BYTES: usize = 65_536;

pub const MAX_KEYS: usize = 32;

pub const DEFAULT_WAIT_MS: u64 = 60_000;

pub const MAX_WAIT_MS: u64 = 600_000;

#[derive(Debug, Clone, Copy, PartialEq, Eq, Structural)]
pub enum McpSplit {
    Right,
    Down,
}

#[derive(Debug)]
pub struct LaunchCliParams {
    pub name: String,
    pub argv: Vec<String>,
    pub cwd: String,
    pub env: Vec<(String, String)>,
    pub workspace_id: Option<String>,
    pub tab_id: Option<String>,
    pub split: McpSplit,
}

#[derive(Debug)]
pub struct SendInputParams {
    pub cli_id: String,
    pub text: Option<String>,
    pub keys: Option<Vec<String>>,
}

/// Parameters that are refused, and why.
#[derive(Debug)]
pub struct InvalidParams {
    pub message: String,
}

pub open spec fn complaint<T>(r: Result<T, InvalidParams>) -> Option<Seq<char>> {
    match r {
        Ok(_) => None,
        Err(e) => Some(e.message@),
    }
}

pub fn invalid_params(message: &str) -> (e: InvalidParams)
    ensures
        e.message@ == message@,
{
    InvalidParams { message: message.to_string() }
}

fn invalid2(a: &str, b: &str) -> (e: InvalidParams)
    ensures
        e.message@ == a@ + b@,
{
    let mut message = a.to_string();
    message.append(b);
    InvalidParams { message }
}

fn invalid3(a: &str, b: &str, c: &str) -> (e: InvalidParams)
    ensures
        e.message@ == a@ + b@ + c@,
{
    let mut message = a.to_string();
    message.append(b);
    message.append(c);
    InvalidParams { message }
}

pub open spec fn nonempty_complaint(
    field: Seq<char>,
    value: Seq<char>,
    max_bytes: usize,
) -> Option<Seq<char>> {
    if text::is_blank(value) {
        Some(field + " must not be empty"@)
    } else if text::utf8_len(value) > max_bytes {
        Some(field + " must be at most "@ + (text::dec(max_bytes as nat) + " bytes"@))
    } else if value.contains('\0') {
        Some(field + " must not contain NUL"@)
    } else {
        None
    }
}

/// Accepts a text that says something, is not too long and holds no NUL.
pub fn validate_nonempty(field: &str, value: &str, max_bytes: usize) -> (r: Result<
    (),
    InvalidParams,
>)
    ensures
        complaint(r) == nonempty_complaint(field@, value@, max_bytes),
{
    if text::blank(value) {
        return Err(invalid2(field, " must not be empty"));
    }
    if text::byte_len(value) > max_bytes {
        let mut bound = text::dec_string(max_bytes as u64);
        bound.append(" bytes");
        return Err(invalid3(field, " must be at most ", bound.as_str()));
    }
    if text::contains_char(value, '\0') {
        return Err(invalid2(field, " must not contain NUL"));
    }
    Ok(())
}

/// Accepts an identifier that the queue handed out.
pub fn validate_queue_id(field: &str, value: &str) -> (r: Result<(), InvalidParams>)
    ensures
        complaint(r) == queue_id_complaint(field@, value@),
{
    if value.is_empty() || text::byte_len(value) > 256 || !desktop_queue::id_chars_only(value) {
        return Err(invalid2(field, " is invalid"));
    }
    Ok(())
}

pub open spec fn queue_id_complaint(field: Seq<char>, value: Seq<char>) -> Option<Seq<char>> {
    if desktop_queue::valid_id(value) {
        None
    } else {
        Some(field + " is invalid"@)
    }
}

/// Accepts an identifier that names a registered CLI.
pub fn validate_opaque_id(field: &str, value: &str) -> (r: Result<(), BridgeError>)
    ensures
        r is Ok == desktop_queue::valid_id(value@),
        r matches Err(e) ==> super::is_bridge_error(
            e,
            "cli_not_running"@,
            "the registered "@ + field@ + " is invalid"@,
            false,
        ) && e.details is None,
{
    if value.is_empty() || text::byte_len(value) > 256 || !desktop_queue::id_chars_only(value) {
        let mut message = "the registered ".to_string();
        message.append(field);
        message.append(" is invalid");
        return Err(BridgeError::new("cli_not_running", message.as_str(), false));
    }
    Ok(())
}

pub fn validate_pane_id(value: &str) -> (r: Result<(), InvalidParams>)
    ensures
        complaint(r) == nonempty_complaint("pane_id"@, value@, 512),
{
    validate_nonempty("pane_id", value, 512)
}

/// Bytes that an argument vector takes up, a terminator for each argument
/// included.
pub open spec fn argv_size(argv: Seq<String>) -> nat
    decreases argv.len(),
{
    if argv.len() == 0 {
        0
    } else {
        argv_size(argv.drop_last()) + text::utf8_len(argv.last()@) + 1
    }
}

pub open spec fn any_nul(argv: Seq<String>) -> bool {
    exists|i: int| 0 <= i < argv.len() && (#[trigger] argv[i])@.contains('\0')
}

fn has_nul(argv: &Vec<String>) -> (r: bool)
    ensures
        r == any_nul(argv@),
{
    let mut i: usize = 0;
    while i < argv.len()
        invariant
            i <= argv@.len(),
            forall|j: int| 0 <= j < i ==> !(#[trigger] argv@[j])@.contains('\0'),
        decreases argv@.len() - i,
    {
        if text::contains_char(argv[i].as_str(), '\0') {
            return true;
        }
        i += 1;
    }
    false
}

proof fn lemma_argv_size_prefix(argv: Seq<String>, k: int)
    requires
        0 <= k <= argv.len(),
    ensures
        argv_size(argv.take(k)) <= argv_size(argv),
    decreases argv.len() - k,
{
    if k < argv.len() {
        assert(argv.take(k + 1).drop_last() =~= argv.take(k));
        lemma_argv_size_prefix(argv, k + 1);
    } else {
        assert(argv.take(k) =~= argv);
    }
}

fn argv_bytes(argv: &Vec<String>) -> (r: Option<usize>)
    ensures
        match r {
            Some(n) => n == argv_size(argv@),
            None => argv_size(argv@) > usize::MAX,
        },
{
    let mut total: usize = 0;
    let mut i: usize = 0;
    assert(argv@.take(0) =~= Seq::<String>::empty());
    while i < argv.len()
        invariant
            i <= argv@.len(),
            total == argv_size(argv@.take(i as int)),
        decreases argv@.len() - i,
    {
        proof {
            assert(argv@.take(i as int + 1).drop_last() =~= argv@.take(i as int));
            lemma_argv_size_prefix(argv@, i as int + 1);
        }
        let n: usize = match text::byte_len(argv[i].as_str()).checked_add(1) {
            Some(n) => n,
            None => return None,
        };
        total = match total.checked_add(n) {
            Some(sum) => sum,
            None => return None,
        };
        i += 1;
    }
    assert(argv@.take(argv@.len() as int) =~= argv@);
    Some(total)
}

pub open spec fn argv_size_complaint(argv: Seq<String>) -> Option<Seq<char>> {
    if argv_size(argv) > usize::MAX {
        Some("argv is too large"@)
    } else if argv_size(argv) > MAX_ARGV_BYTES {
        Some("argv must be at most 32768 bytes"@)
    } else {
        None
    }
}

fn validate_argv_size(argv: &Vec<String>) -> (r: Result<(), InvalidParams>)
    ensures
        complaint(r) == argv_size_complaint(argv@),
{
    match argv_bytes(argv) {
        None => Err(invalid_params("argv is too large")),
        Some(n) => {
            if n > MAX_ARGV_BYTES {
                Err(invalid_params("argv must be at most 32768 bytes"))
            } else {
                Ok(())
            }
        },
    }
}

/// The key could not be set in any environment.
pub open spec fn bad_env_key(key: Seq<char>) -> bool {
    key.len() == 0 || text::utf8_len(key) > MAX_ENV_KEY_BYTES || key.contains('=') || key.contains(
        '\0',
    )
}

pub open spec fn bad_env_value(value: Seq<char>) -> bool {
    text::utf8_len(value) > MAX_ENV_VALUE_BYTES || value.contains('\0')
}

pub open spec fn reserved_key(key: Seq<char>) -> bool {
    text::has_prefix(key, "HERDR_"@)
}

/// Bytes that an environment takes up.
pub open spec fn env_size(env: Seq<(String, String)>) -> nat
    decreases env.len(),
{
    if env.len() == 0 {
        0
    } else {
        env_size(env.drop_last()) + text::utf8_len(env.last().0@) + text::utf8_len(env.last().1@)
            + 1
    }
}

pub open spec fn launch_entry_complaint(key: Seq<char>, value: Seq<char>) -> Option<Seq<char>> {
    if bad_env_key(key) {
        Some("invalid environment key "@ + text::debug_text(key))
    } else if reserved_key(key) {
        Some("reserved HERDR_* environment variables cannot be overridden"@)
    } else if bad_env_value(value) {
        Some("environment value for "@ + text::debug_text(key) + " is invalid or too large"@)
    } else {
        None
    }
}

pub open spec fn start_entry_complaint(key: Seq<char>, value: Seq<char>) -> Option<Seq<char>> {
    if bad_env_key(key) || reserved_key(key) || bad_env_value(value) {
        Some("environment entry "@ + text::debug_text(key) + " is invalid or reserved"@)
    } else {
        None
    }
}

pub open spec fn entry_complaint(
    key: Seq<char>,
    value: Seq<char>,
    launch: bool,
) -> Option<Seq<char>> {
    if launch {
        launch_entry_complaint(key, value)
    } else {
        start_entry_complaint(key, value)
    }
}

/// The first complaint about an entry, in order.
pub open spec fn entries_complaint(env: Seq<(String, String)>, launch: bool) -> Option<Seq<char>>
    decreases env.len(),
{
    if env.len() == 0 {
        None
    } else if entries_complaint(env.drop_last(), launch) is Some {
        entries_complaint(env.drop_last(), launch)
    } else if entry_complaint(env.last().0@, env.last().1@, launch) is Some {
        entry_complaint(env.last().0@, env.last().1@, launch)
    } else if env_size(env) > usize::MAX {
        Some("env is too large"@)
    } else {
        None
    }
}

pub open spec fn env_complaint(env: Seq<(String, String)>, launch: bool) -> Option<Seq<char>> {
    if env.len() > MAX_ENV_ENTRIES {
        Some("env must contain at most 64 entries"@)
    } else if entries_complaint(env, launch) is Some {
        entries_complaint(env, launch)
    } else if env_size(env) > MAX_ENV_BYTES {
        Some("env must be at most 32768 bytes"@)
    } else {
        None
    }
}

proof fn lemma_first_entry_complaint(env: Seq<(String, String)>, launch: bool, k: int)
    requires
        0 <= k <= env.len(),
    ensures
        entries_complaint(env.take(k), launch) is Some ==> entries_complaint(env, launch)
            == entries_complaint(env.take(k), launch),
    decreases env.len() - k,
{
    if k < env.len() {
        assert(env.take(k + 1).drop_last() =~= env.take(k));
        lemma_first_entry_complaint(env, launch, k + 1);
    } else {
        assert(env.take(k) =~= env);
    }
}

fn validate_env_entry(key: &str, value: &str, launch: bool) -> (r: Result<(), InvalidParams>)
    ensures
        complaint(r) == entry_complaint(key@, value@, launch),
{
    let bad_key = key.is_empty() || text::byte_len(key) > MAX_ENV_KEY_BYTES || text::contains_char(
        key,
        '=',
    ) || text::contains_char(key, '\0');
    let reserved = text::prefixed(key, "HERDR_");
    let bad_value = text::byte_len(value) > MAX_ENV_VALUE_BYTES || text::contains_char(value, '\0');
    if launch {
        if bad_key {
            return Err(invalid2("invalid environment key ", text::quoted(key).as_str()));
        }
        if reserved {
            return Err(
                invalid_params("reserved HERDR_* environment variables cannot be overridden"),
            );
        }
        if bad_value {
            return Err(
                invalid3(
                    "environment value for ",
                    text::quoted(key).as_str(),
                    " is invalid or too large",
                ),
            );
        }
    } else if bad_key || reserved || bad_value {
        return Err(
            invalid3("environment entry ", text::quoted(key).as_str(), " is invalid or reserved"),
        );
    }
    Ok(())
}

fn validate_env(env: &Vec<(String, String)>, launch: bool) -> (r: Result<(), InvalidParams>)
    ensures
        complaint(r) == env_complaint(env@, launch),
{
    if env.len() > MAX_ENV_ENTRIES {
        return Err(invalid_params("env must contain at most 64 entries"));
    }
    let mut total: usize = 0;
    let mut i: usize = 0;
    assert(env@.take(0) =~= Seq::<(String, String)>::empty());
    while i < env.len()
        invariant
            i <= env@.len() <= MAX_ENV_ENTRIES,
            total == env_size(env@.take(i as int)),
            entries_complaint(env@.take(i as int), launch) is None,
        decreases env@.len() - i,
    {
        proof {
            assert(env@.take(i as int + 1).drop_last() =~= env@.take(i as int));
            lemma_first_entry_complaint(env@, launch, i as int + 1);
        }
        match validate_env_entry(env[i].0.as_str(), env[i].1.as_str(), launch) {
            Ok(()) => {},
            Err(e) => return Err(e),
        }
        let key_len: usize = text::byte_len(env[i].0.as_str());
        let value_len: usize = text::byte_len(env[i].1.as_str());
        assert(key_len <= MAX_ENV_KEY_BYTES && value_len <= MAX_ENV_VALUE_BYTES);
        total = match total.checked_add(key_len + value_len + 1) {
            Some(sum) => sum,
            None => return Err(invalid_params("env is too large")),
        };
        i += 1;
    }
    assert(env@.take(env@.len() as int) =~= env@);
    if total > MAX_ENV_BYTES {
        return Err(invalid_params("env must be at most 32768 bytes"));
    }
    Ok(())
}

pub open spec fn argv_count_complaint(argv: Seq<String>) -> Option<Seq<char>> {
    if argv.len() == 0 || argv.len() > MAX_ARGV {
        Some("argv must contain between 1 and 64 elements"@)
    } else {
        None
    }
}

pub open spec fn optional_complaint(
    field: Seq<char>,
    value: Option<String>,
    max_bytes: usize,
) -> Option<Seq<char>> {
    match value {
        Some(v) => nonempty_complaint(field, v@, max_bytes),
        None => None,
    }
}

fn validate_optional(field: &str, value: &Option<String>, max_bytes: usize) -> (r: Result<
    (),
    InvalidParams,
>)
    ensures
        complaint(r) == optional_complaint(field@, *value, max_bytes),
{
    match value {
        Some(v) => validate_nonempty(field, v.as_str(), max_bytes),
        None => Ok(()),
    }
}

/// Complaints about the command line of a launch.
pub open spec fn command_complaint(argv: Seq<String>, executable_is_file: bool) -> Option<
    Seq<char>,
> {
    if argv_count_complaint(argv) is Some {
        argv_count_complaint(argv)
    } else if argv[0]@.len() == 0 {
        Some("argv[0] must not be empty"@)
    } else if argv[0]@.contains('/') && !text::has_prefix(argv[0]@, "/"@) {
        Some("argv[0] paths must be absolute; use a bare executable name for PATH lookup"@)
    } else if argv[0]@.contains('/') && !executable_is_file {
        Some("an absolute argv[0] must name an existing file"@)
    } else if any_nul(argv) {
        Some("argv must not contain NUL"@)
    } else {
        argv_size_complaint(argv)
    }
}

/// The first complaint about a launch. `executable_is_file` and `cwd_is_dir`
/// say what the file system has at `argv[0]` and at `cwd`.
pub open spec fn launch_complaint(
    params: LaunchCliParams,
    executable_is_file: bool,
    cwd_is_dir: bool,
) -> Option<Seq<char>> {
    if nonempty_complaint("name"@, params.name@, MAX_NAME_BYTES) is Some {
        nonempty_complaint("name"@, params.name@, MAX_NAME_BYTES)
    } else if command_complaint(params.argv@, executable_is_file) is Some {
        command_complaint(params.argv@, executable_is_file)
    } else if params.cwd@.contains('\0') {
        Some("cwd must not contain NUL"@)
    } else if !text::has_prefix(params.cwd@, "/"@) {
        Some("cwd must be an absolute path"@)
    } else if !cwd_is_dir {
        Some("cwd must be an existing directory"@)
    } else if env_complaint(params.env@, true) is Some {
        env_complaint(params.env@, true)
    } else if optional_complaint("workspace_id"@, params.workspace_id, 256) is Some {
        optional_complaint("workspace_id"@, params.workspace_id, 256)
    } else {
        optional_complaint("tab_id"@, params.tab_id, 256)
    }
}

fn validate_command(argv: &Vec<String>, executable_is_file: bool) -> (r: Result<(), InvalidParams>)
    ensures
        complaint(r) == command_complaint(argv@, executable_is_file),
{
    if argv.len() == 0 || argv.len() > MAX_ARGV {
        return Err(invalid_params("argv must contain between 1 and 64 elements"));
    }
    if argv[0].as_str().is_empty() {
        return Err(invalid_params("argv[0] must not be empty"));
    }
    if text::contains_char(argv[0].as_str(), '/') {
        if !text::prefixed(argv[0].as_str(), "/") {
            return Err(
                invalid_params(
                    "argv[0] paths must be absolute; use a bare executable name for PATH lookup",
                ),
            );
        }
        if !executable_is_file {
            return Err(invalid_params("an absolute argv[0] must name an existing file"));
        }
    }
    if has_nul(argv) {
        return Err(invalid_params("argv must not contain NUL"));
    }
    validate_argv_size(argv)
}

/// Accepts a launch, or says what is wrong with it.
pub fn validate_launch(
    params: &LaunchCliParams,
    executable_is_file: bool,
    cwd_is_dir: bool,
) -> (r: Result<(), InvalidParams>)
    ensures
        complaint(r) == launch_complaint(*params, executable_is_file, cwd_is_dir),
{
    match validate_nonempty("name", params.name.as_str(), MAX_NAME_BYTES) {
        Ok(()) => {},
        Err(e) => return Err(e),
    }
    match validate_command(&params.argv, executable_is_file) {
        Ok(()) => {},
        Err(e) => return Err(e),
    }
    if text::contains_char(params.cwd.as_str(), '\0') {
        return Err(invalid_params("cwd must not contain NUL"));
    }
    if !text::prefixed(params.cwd.as_str(), "/") {
        return Err(invalid_params("cwd must be an absolute path"));
    }
    if !cwd_is_dir {
        return Err(invalid_params("cwd must be an existing directory"));
    }
    match validate_env(&params.env, true) {
        Ok(()) => {},
        Err(e) => return Err(e),
    }
    match validate_optional("workspace_id", &params.workspace_id, 256) {
        Ok(()) => {},
        Err(e) => return Err(e),
    }
    validate_optional("tab_id", &params.tab_id, 256)
}

pub open spec fn bad_key_token(key: Seq<char>) -> bool {
    key.len() == 0 || text::utf8_len(key) > 64 || key.contains('\0')
}

pub open spec fn any_bad_key(keys: Seq<String>) -> bool {
    exists|i: int| 0 <= i < keys.len() && bad_key_token((#[trigger] keys[i])@)
}

fn has_bad_key(keys: &Vec<String>) -> (r: bool)
    ensures
        r == any_bad_key(keys@),
{
    let mut i: usize = 0;
    while i < keys.len()
        invariant
            i <= keys@.len(),
            forall|j: int| 0 <= j < i ==> !bad_key_token((#[trigger] keys@[j])@),
        decreases keys@.len() - i,
    {
        let key = keys[i].as_str();
        if key.is_empty() || text::byte_len(key) > 64 || text::contains_char(key, '\0') {
            assert(bad_key_token(keys@[i as int]@));
            return true;
        }
        i += 1;
    }
    false
}

pub open spec fn input_complaint(params: SendInputParams) -> Option<Seq<char>> {
    if queue_id_complaint("cli_id"@, params.cli_id@) is Some {
        queue_id_complaint("cli_id"@, params.cli_id@)
    } else {
        match (params.text, params.keys) {
            (Some(text), None) => if text@.len() == 0 {
                Some("text must not be empty"@)
            } else if text::utf8_len(text@) > MAX_INPUT_BYTES {
                Some("text must be at most 65536 bytes"@)
            } else {
                None
            },
            (None, Some(keys)) => if keys@.len() == 0 || keys@.len() > MAX_KEYS {
                Some("keys must contain between 1 and 32 tokens"@)
            } else if any_bad_key(keys@) {
                Some("each key token must contain 1 to 64 bytes without NUL"@)
            } else {
                None
            },
            _ => Some("provide exactly one of text or keys"@),
        }
    }
}

/// Accepts input for a CLI: text or keys, not both.
pub fn validate_send_input(params: &SendInputParams) -> (r: Result<(), InvalidParams>)
    ensures
        complaint(r) == input_complaint(*params),
{
    match validate_queue_id("cli_id", params.cli_id.as_str()) {
        Ok(()) => {},
        Err(e) => return Err(e),
    }
    match (&params.text, &params.keys) {
        (Some(text), None) => {
            if text.as_str().is_empty() {
                return Err(invalid_params("text must not be empty"));
            }
            if text::byte_len(text.as_str()) > MAX_INPUT_BYTES {
                return Err(invalid_params("text must be at most 65536 bytes"));
            }
        },
        (None, Some(keys)) => {
            if keys.len() == 0 || keys.len() > MAX_KEYS {
                return Err(invalid_params("keys must contain between 1 and 32 tokens"));
            }
            if has_bad_key(keys) {
                return Err(
                    invalid_params("each key token must contain 1 to 64 bytes without NUL"),
                );
            }
        },
        _ => {
            return Err(invalid_params("provide exactly one of text or keys"));
        },
    }
    Ok(())
}

pub open spec fn bad_lines(lines: Option<u32>) -> bool {
    lines matches Some(n) && !(1 <= n <= 1000)
}

fn lines_out_of_range(lines: &Option<u32>) -> (r: bool)
    ensures
        r == bad_lines(*lines),
{
    match lines {
        Some(n) => !(1 <= *n && *n <= 1000),
        None => false,
    }
}

/// A complaint about a target, then one about the number of lines.
pub open spec fn read_complaint(
    field: Seq<char>,
    target: Seq<char>,
    lines: Option<u32>,
) -> Option<Seq<char>> {
    if nonempty_complaint(field, target, 512) is Some {
        nonempty_complaint(field, target, 512)
    } else if bad_lines(lines) {
        Some("lines must be between 1 and 1000"@)
    } else {
        None
    }
}

pub(crate) fn validate_read(field: &str, target: &str, lines: &Option<u32>) -> (r: Result<(), InvalidParams>)
    ensures
        complaint(r) == read_complaint(field@, target@, *lines),
{
    match validate_nonempty(field, target, 512) {
        Ok(()) => {},
        Err(e) => return Err(e),
    }
    if lines_out_of_range(lines) {
        return Err(invalid_params("lines must be between 1 and 1000"));
    }
    Ok(())
}

pub open spec fn pane_input_complaint(params: PaneSendInputParams) -> Option<Seq<char>> {
    if nonempty_complaint("pane_id"@, params.pane_id@, 512) is Some {
        nonempty_complaint("pane_id"@, params.pane_id@, 512)
    } else if params.text@.len() == 0 && params.keys@.len() == 0 {
        Some("provide text, keys, or both"@)
    } else if text::utf8_len(params.text@) > MAX_INPUT_BYTES || params.text@.contains('\0') {
        Some("text must be at most 65536 bytes without NUL"@)
    } else if params.keys@.len() > MAX_KEYS || any_bad_key(params.keys@) {
        Some("keys must contain at most 32 tokens of 1 to 64 bytes without NUL"@)
    } else {
        None
    }
}

/// Accepts input for a pane: text, keys or both.
pub fn validate_direct_pane_input(params: &PaneSendInputParams) -> (r: Result<(), InvalidParams>)
    ensures
        complaint(r) == pane_input_complaint(*params),
{
    match validate_pane_id(params.pane_id.as_str()) {
        Ok(()) => {},
        Err(e) => return Err(e),
    }
    if params.text.as_str().is_empty() && params.keys.len() == 0 {
        return Err(invalid_params("provide text, keys, or both"));
    }
    if text::byte_len(params.text.as_str()) > MAX_INPUT_BYTES || text::contains_char(
        params.text.as_str(),
        '\0',
    ) {
        return Err(invalid_params("text must be at most 65536 bytes without NUL"));
    }
    if params.keys.len() > MAX_KEYS || has_bad_key(&params.keys) {
        return Err(
            invalid_params("keys must contain at most 32 tokens of 1 to 64 bytes without NUL"),
        );
    }
    Ok(())
}

pub open spec fn control_complaint(method: Method) -> Option<Seq<char>> {
    match method {
        Method::PaneRead(params) => read_complaint("pane_id"@, params.pane_id@, params.lines),
        Method::AgentRead(params) => read_complaint("target"@, params.target@, params.lines),
        Method::PaneWaitForOutput(params) => read_complaint(
            "pane_id"@,
            params.pane_id@,
            params.lines,
        ),
        Method::PaneSendInput(params) => pane_input_complaint(params),
        Method::AgentSend(params) => if nonempty_complaint("target"@, params.target@, 512) is Some {
            nonempty_complaint("target"@, params.target@, 512)
        } else {
            nonempty_complaint("text"@, params.text@, MAX_INPUT_BYTES)
        },
        _ => None,
    }
}

/// Accepts a method that a control tool is about to send.
pub fn validate_control_method(method: &Method) -> (r: Result<(), InvalidParams>)
    ensures
        complaint(r) == control_complaint(*method),
{
    match method {
        Method::PaneRead(params) => validate_read(
            "pane_id",
            params.pane_id.as_str(),
            &params.lines,
        ),
        Method::AgentRead(params) => validate_read(
            "target",
            params.target.as_str(),
            &params.lines,
        ),
        Method::PaneWaitForOutput(params) => validate_read(
            "pane_id",
            params.pane_id.as_str(),
            &params.lines,
        ),
        Method::PaneSendInput(params) => validate_direct_pane_input(params),
        Method::AgentSend(params) => match validate_nonempty("target", params.target.as_str(), 512) {
            Ok(()) => validate_nonempty("text", params.text.as_str(), MAX_INPUT_BYTES),
            Err(e) => Err(e),
        },
        _ => Ok(()),
    }
}

pub open spec fn local_target_complaint(target: Seq<char>) -> Option<Seq<char>> {
    if nonempty_complaint("target"@, target, 512) is Some {
        nonempty_complaint("target"@, target, 512)
    } else if text::has_substring(target, "::"@) {
        Some("local agent actions do not accept peer-qualified targets"@)
    } else {
        None
    }
}

/// Accepts the target of an agent on this machine.
pub fn validate_local_agent_target(target: &str) -> (r: Result<(), InvalidParams>)
    ensures
        complaint(r) == local_target_complaint(target@),
{
    match validate_nonempty("target", target, 512) {
        Ok(()) => {},
        Err(e) => return Err(e),
    }
    if text::contains_str(target, "::") {
        return Err(invalid_params("local agent actions do not accept peer-qualified targets"));
    }
    Ok(())
}

pub open spec fn remote_target_complaint(target: Seq<char>) -> Option<Seq<char>> {
    if nonempty_complaint("target"@, target, 512) is Some {
        nonempty_complaint("target"@, target, 512)
    } else {
        match text::split_first(target, "::"@) {
            None => Some("remote agent targets must use the peer::agent form"@),
            Some((peer, agent)) => if nonempty_complaint("peer"@, peer, 256) is Some {
                nonempty_complaint("peer"@, peer, 256)
            } else {
                nonempty_complaint("agent"@, agent, 256)
            },
        }
    }
}

/// Accepts the target of an agent on a peer.
pub fn validate_remote_agent_target(target: &str) -> (r: Result<(), InvalidParams>)
    ensures
        complaint(r) == remote_target_complaint(target@),
{
    match validate_nonempty("target", target, 512) {
        Ok(()) => {},
        Err(e) => return Err(e),
    }
    match text::split_once(target, "::") {
        None => Err(invalid_params("remote agent targets must use the peer::agent form")),
        Some((peer, agent)) => match validate_nonempty("peer", peer.as_str(), 256) {
            Ok(()) => validate_nonempty("agent", agent.as_str(), 256),
            Err(e) => Err(e),
        },
    }
}

/// No target is accepted both as local and as remote.
pub proof fn lemma_targets_are_local_or_remote(target: Seq<char>)
    ensures
        local_target_complaint(target) is Some || remote_target_complaint(target) is Some,
{
}

pub open spec fn match_value(m: OutputMatch) -> Seq<char> {
    match m {
        OutputMatch::Substring { value } => value@,
        OutputMatch::Regex { value } => value@,
    }
}

pub fn validate_output_match(output_match: &OutputMatch) -> (r: Result<(), InvalidParams>)
    ensures
        complaint(r) == nonempty_complaint("match value"@, match_value(*output_match), 8192),
{
    match output_match {
        OutputMatch::Substring { value } => validate_nonempty("match value", value.as_str(), 8192),
        OutputMatch::Regex { value } => validate_nonempty("match value", value.as_str(), 8192),
    }
}

/// How long a wait may take.
pub fn normalize_wait_timeout(timeout_ms: Option<u64>) -> (r: Result<u64, InvalidParams>)
    ensures
        ({
            let wanted = match timeout_ms {
                Some(ms) => ms,
                None => DEFAULT_WAIT_MS,
            };
            if 1 <= wanted <= MAX_WAIT_MS {
                r == Ok::<u64, InvalidParams>(wanted)
            } else {
                complaint(r) == Some("timeout_ms must be between 1 and 600000"@)
            }
        }),
{
    let wanted: u64 = match timeout_ms {
        Some(ms) => ms,
        None => DEFAULT_WAIT_MS,
    };
    if !(1 <= wanted && wanted <= MAX_WAIT_MS) {
        return Err(invalid_params("timeout_ms must be between 1 and 600000"));
    }
    Ok(wanted)
}

/// Complaints about where an agent is to run.
pub open spec fn placement_complaint(params: AgentStartParams, remote: bool) -> Option<Seq<char>> {
    if remote {
        match params.peer {
            None => Some("remote agent start requires peer"@),
            Some(peer) => if nonempty_complaint("peer"@, peer@, 256) is Some {
                nonempty_complaint("peer"@, peer@, 256)
            } else if params.focus {
                Some("remote agent start does not support focus"@)
            } else {
                None
            },
        }
    } else if params.peer is Some {
        Some("local agent start does not accept a peer; use herdr_peer_control"@)
    } else {
        None
    }
}

/// Complaints about the directory an agent is to run in.
pub open spec fn start_cwd_complaint(
    cwd: Option<String>,
    remote: bool,
    cwd_is_dir: bool,
) -> Option<Seq<char>> {
    match cwd {
        None => None,
        Some(dir) => if nonempty_complaint("cwd"@, dir@, 4096) is Some {
            nonempty_complaint("cwd"@, dir@, 4096)
        } else if !remote && (!text::has_prefix(dir@, "/"@) || !cwd_is_dir) {
            Some("local cwd must be an existing absolute directory"@)
        } else {
            None
        },
    }
}

/// The first complaint about starting an agent. `cwd_is_dir` says whether the
/// file system has a directory at `cwd`.
pub open spec fn start_complaint(
    params: AgentStartParams,
    remote: bool,
    cwd_is_dir: bool,
) -> Option<Seq<char>> {
    if nonempty_complaint("name"@, params.name@, MAX_NAME_BYTES) is Some {
        nonempty_complaint("name"@, params.name@, MAX_NAME_BYTES)
    } else if placement_complaint(params, remote) is Some {
        placement_complaint(params, remote)
    } else if params.transport is Some {
        Some("MCP agent start does not accept a transport override"@)
    } else if argv_count_complaint(params.argv@) is Some {
        argv_count_complaint(params.argv@)
    } else if params.argv@[0]@.len() == 0 || any_nul(params.argv@) {
        Some("argv entries must be nonempty and contain no NUL"@)
    } else if argv_size_complaint(params.argv@) is Some {
        argv_size_complaint(params.argv@)
    } else if start_cwd_complaint(params.cwd, remote, cwd_is_dir) is Some {
        start_cwd_complaint(params.cwd, remote, cwd_is_dir)
    } else {
        env_complaint(params.env@, false)
    }
}

/// Accepts the start of an agent, here or on a peer.
pub fn validate_agent_start(
    params: &AgentStartParams,
    remote: bool,
    cwd_is_dir: bool,
) -> (r: Result<(), InvalidParams>)
    ensures
        complaint(r) == start_complaint(*params, remote, cwd_is_dir),
{
    match validate_nonempty("name", params.name.as_str(), MAX_NAME_BYTES) {
        Ok(()) => {},
        Err(e) => return Err(e),
    }
    if remote {
        match &params.peer {
            None => return Err(invalid_params("remote agent start requires peer")),
            Some(peer) => match validate_nonempty("peer", peer.as_str(), 256) {
                Ok(()) => {},
                Err(e) => return Err(e),
            },
        }
        if params.focus {
            return Err(invalid_params("remote agent start does not support focus"));
        }
    } else if params.peer.is_some() {
        return Err(
            invalid_params("local agent start does not accept a peer; use herdr_peer_control"),
        );
    }
    if params.transport.is_some() {
        return Err(invalid_params("MCP agent start does not accept a transport override"));
    }
    if params.argv.len() == 0 || params.argv.len() > MAX_ARGV {
        return Err(invalid_params("argv must contain between 1 and 64 elements"));
    }
    if params.argv[0].as_str().is_empty() || has_nul(&params.argv) {
        return Err(invalid_params("argv entries must be nonempty and contain no NUL"));
    }
    match validate_argv_size(&params.argv) {
        Ok(()) => {},
        Err(e) => return Err(e),
    }
    if let Some(cwd) = &params.cwd {
        match validate_nonempty("cwd", cwd.as_str(), 4096) {
            Ok(()) => {},
            Err(e) => return Err(e),
        }
        if !remote && (!text::prefixed(cwd.as_str(), "/") || !cwd_is_dir) {
            return Err(invalid_params("local cwd must be an existing absolute directory"));
        }
    }
    validate_env(&params.env, false)
}

/// Accepts the size of a read.
pub fn validate_read_pane(pane_id: &str, lines: u32, max_bytes: usize) -> (r: Result<
    (),
    InvalidParams,
>)
    ensures
        complaint(r) == if read_complaint("pane_id"@, pane_id@, Some(lines)) is Some {
            read_complaint("pane_id"@, pane_id@, Some(lines))
        } else if !(1 <= max_bytes <= PANE_READ_MAX_BYTES) {
            Some("max_bytes must be between 1 and 262144"@)
        } else {
            None
        },
{
    match validate_read("pane_id", pane_id, &Some(lines)) {
        Ok(()) => {},
        Err(e) => return Err(e),
    }
    if !(1 <= max_bytes && max_bytes <= PANE_READ_MAX_BYTES) {
        return Err(invalid_params("max_bytes must be between 1 and 262144"));
    }
    Ok(())
}

/// Accepts the size of a drain.
pub fn validate_drain(cli_id: &str, limit: usize) -> (r: Result<(), InvalidParams>)
    ensures
        complaint(r) == if queue_id_complaint("cli_id"@, cli_id@) is Some {
            queue_id_complaint("cli_id"@, cli_id@)
        } else if !(1 <= limit <= MAX_DRAIN_LIMIT) {
            Some("limit must be between 1 and 100"@)
        } else {
            None
        },
{
    match validate_queue_id("cli_id", cli_id) {
        Ok(()) => {},
        Err(e) => return Err(e),
    }
    if !(1 <= limit && limit <= MAX_DRAIN_LIMIT) {
        return Err(invalid_params("limit must be between 1 and 100"));
    }
    Ok(())
}

} // verus!
