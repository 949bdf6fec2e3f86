//! Where a server listens for its peers.

use vstd::prelude::*;
use vstd::string::*;
use vstd::utf8::*;

use crate::digest;
use crate::path;
use crate::text;

verus! {

/// The smallest supported `sun_path` holds this many bytes beside its trailing
/// NUL.
pub const MAX_UNIX_SOCKET_PATH_BYTES: usize = 103;

/// Ten URL-safe Base64 characters carry sixty bits.
pub const NORMAL_PEER_BASENAME_CHARS: usize = 10;

/// The fallback has room for ninety-six bits.
pub const FALLBACK_PEER_HASH_CHARS: usize = 16;

/// What the identifier of a peer socket is the digest of. Lengths keep the two
/// parts apart.
pub open spec fn socket_identity(api_path: Seq<char>, instance_id: Seq<char>) -> Seq<u8> {
    encode_utf8("herdr-peer-socket-v1"@) + digest::le64(text::utf8_len(api_path) as u64)
        + encode_utf8(api_path) + digest::le64(text::utf8_len(instance_id) as u64) + encode_utf8(
        instance_id,
    )
}

/// The identifier of the peer socket that belongs to an API socket of one
/// server instance.
pub open spec fn opaque_id(api_path: Seq<char>, instance_id: Seq<char>) -> Seq<char> {
    digest::base64_of(digest::sha256_of(socket_identity(api_path, instance_id)))
}

pub fn opaque_peer_socket_id(api_socket_path: &str, instance_id: &str) -> (r: String)
    ensures
        r@ == opaque_id(api_socket_path@, instance_id@),
        r@.len() == 43,
        digest::is_url_safe(r@),
{
    let mut message: Vec<u8> = Vec::new();
    digest::push_text(&mut message, "herdr-peer-socket-v1");
    digest::push_le64(&mut message, text::byte_len(api_socket_path) as u64);
    digest::push_text(&mut message, api_socket_path);
    digest::push_le64(&mut message, text::byte_len(instance_id) as u64);
    digest::push_text(&mut message, instance_id);
    assert(message@ =~= socket_identity(api_socket_path@, instance_id@));
    let hash = digest::sha256(message.as_slice());
    proof {
        digest::lemma_base64_is_url_safe(hash@);
    }
    digest::base64_url(hash.as_slice())
}

/// `s` with another last character.
pub open spec fn rotated(s: Seq<char>) -> Seq<char> {
    if s.len() == 0 {
        s
    } else {
        s.drop_last().push(
            if s.last() == '-' {
                '_'
            } else {
                '-'
            },
        )
    }
}

pub fn rotate_last_basename_char(basename: &str) -> (r: String)
    ensures
        r@ == rotated(basename@),
{
    let v = text::chars_of(basename);
    let n: usize = v.len();
    if n == 0 {
        return String::new();
    }
    let mut s = text::string_of(&v, 0, n - 1);
    assert(s@ =~= basename@.drop_last());
    s.push(
        if v[n - 1] == '-' {
            '_'
        } else {
            '-'
        },
    );
    s
}

/// A rotated name is another name of the same length.
pub proof fn lemma_rotation_differs(s: Seq<char>)
    requires
        s.len() > 0,
    ensures
        rotated(s) != s,
        rotated(s).len() == s.len(),
{
    assert(rotated(s).last() != s.last());
}

/// The name beside the API socket: never the API socket's own.
pub open spec fn normal_basename(api_basename: Seq<char>, id: Seq<char>) -> Seq<char> {
    let name = id.take(NORMAL_PEER_BASENAME_CHARS as int);
    if api_basename == name {
        rotated(name)
    } else {
        name
    }
}

pub open spec fn parent_or_empty(p: Seq<char>) -> Seq<char> {
    match path::path_parent(p) {
        Some(dir) => dir,
        None => Seq::empty(),
    }
}

/// The path beside the API socket, where the API socket's name is long enough
/// to make room for it.
pub open spec fn normal_candidate(api_path: Seq<char>, id: Seq<char>) -> Option<Seq<char>> {
    match path::path_file_name(api_path) {
        Some(name) => if text::utf8_len(name) >= NORMAL_PEER_BASENAME_CHARS {
            let candidate = path::path_join(parent_or_empty(api_path), normal_basename(name, id));
            if !path::same_path(candidate, api_path) && text::utf8_len(candidate) <= text::utf8_len(
                api_path,
            ) && text::utf8_len(candidate) <= MAX_UNIX_SOCKET_PATH_BYTES {
                Some(candidate)
            } else {
                None
            }
        } else {
            None
        },
        None => None,
    }
}

/// The path in a temporary directory, if it is short enough.
pub open spec fn fallback_candidate(
    api_path: Seq<char>,
    dir: Seq<char>,
    basename: Seq<char>,
) -> Option<Seq<char>> {
    let candidate = path::path_join(dir, basename);
    if !path::same_path(candidate, api_path) && text::utf8_len(candidate)
        <= MAX_UNIX_SOCKET_PATH_BYTES {
        Some(candidate)
    } else {
        None
    }
}

/// The name in a temporary directory.
pub open spec fn fallback_basename(id: Seq<char>) -> Seq<char> {
    "hp-"@ + id.take(FALLBACK_PEER_HASH_CHARS as int)
}

/// The first that will do: beside the API socket, in the temporary directory,
/// on Unix in `/tmp`, in the current directory.
pub open spec fn derived_path(
    api_path: Seq<char>,
    id: Seq<char>,
    temp_dir: Seq<char>,
    unix: bool,
) -> Seq<char> {
    let basename = fallback_basename(id);
    if normal_candidate(api_path, id) is Some {
        normal_candidate(api_path, id)->0
    } else if fallback_candidate(api_path, temp_dir, basename) is Some {
        fallback_candidate(api_path, temp_dir, basename)->0
    } else if unix && !path::same_path(temp_dir, "/tmp"@) && fallback_candidate(
        api_path,
        "/tmp"@,
        basename,
    ) is Some {
        fallback_candidate(api_path, "/tmp"@, basename)->0
    } else {
        basename
    }
}

/// The path fits into a socket address, and is not the API socket's.
pub open spec fn is_usable(p: Seq<char>, api_path: Seq<char>) -> bool {
    text::utf8_len(p) <= MAX_UNIX_SOCKET_PATH_BYTES && !path::same_path(p, api_path)
}

proof fn lemma_ascii_len(s: Seq<char>)
    requires
        is_ascii_chars(s),
    ensures
        text::utf8_len(s) == s.len(),
{
    is_ascii_chars_encode_utf8(s);
}

proof fn lemma_fallback_basename(id: Seq<char>)
    requires
        id.len() >= FALLBACK_PEER_HASH_CHARS,
        digest::is_url_safe(id),
    ensures
        fallback_basename(id).len() == 19,
        text::utf8_len(fallback_basename(id)) == 19,
        path::is_plain_name(fallback_basename(id)),
        text::utf8_len(id.take(NORMAL_PEER_BASENAME_CHARS as int)) == NORMAL_PEER_BASENAME_CHARS,
        path::is_plain_name(id.take(NORMAL_PEER_BASENAME_CHARS as int)),
{
    reveal_strlit("hp-");
    let name = fallback_basename(id);
    assert forall|i: int| 0 <= i < name.len() implies '\0' <= #[trigger] name[i] <= '\u{7f}'
        && name[i] != '/' && name[i] != '\\' && name[i] != ':' by {
        if i >= 3 {
            assert(name[i] == id[i - 3]);
        }
    }
    lemma_ascii_len(name);
    lemma_ascii_len(id.take(NORMAL_PEER_BASENAME_CHARS as int));
}

fn try_fallback(api_path: &str, dir: &str, basename: &str) -> (r: Option<String>)
    ensures
        path::opt_text(r) == fallback_candidate(api_path@, dir@, basename@),
{
    let candidate = path::join(dir, basename);
    if !path::equal(candidate.as_str(), api_path) && text::byte_len(candidate.as_str())
        <= MAX_UNIX_SOCKET_PATH_BYTES {
        Some(candidate)
    } else {
        None
    }
}

/// The peer socket's path for an identifier that was derived.
pub fn place_peer_socket(api_socket_path: &str, id: &str, temp_dir: &str, unix: bool) -> (r: String)
    requires
        id@.len() >= FALLBACK_PEER_HASH_CHARS,
    ensures
        r@ == derived_path(api_socket_path@, id@, temp_dir@, unix),
        digest::is_url_safe(id@) ==> is_usable(r@, api_socket_path@),
{
    let v = text::chars_of(id);
    if let Some(api_basename) = path::file_name(api_socket_path) {
        if text::byte_len(api_basename.as_str()) >= NORMAL_PEER_BASENAME_CHARS {
            let mut basename = text::string_of(&v, 0, NORMAL_PEER_BASENAME_CHARS);
            assert(basename@ =~= id@.take(NORMAL_PEER_BASENAME_CHARS as int));
            if text::str_eq(api_basename.as_str(), basename.as_str()) {
                basename = rotate_last_basename_char(basename.as_str());
            }
            let dir = match path::parent(api_socket_path) {
                Some(dir) => dir,
                None => String::new(),
            };
            let candidate = path::join(dir.as_str(), basename.as_str());
            if !path::equal(candidate.as_str(), api_socket_path) && text::byte_len(
                candidate.as_str(),
            ) <= text::byte_len(api_socket_path) && text::byte_len(candidate.as_str())
                <= MAX_UNIX_SOCKET_PATH_BYTES {
                return candidate;
            }
        }
    }
    let mut basename = "hp-".to_string();
    let hash = text::string_of(&v, 0, FALLBACK_PEER_HASH_CHARS);
    assert(hash@ =~= id@.take(FALLBACK_PEER_HASH_CHARS as int));
    basename.append(hash.as_str());
    match try_fallback(api_socket_path, temp_dir, basename.as_str()) {
        Some(found) => return found,
        None => {},
    }
    if unix && !path::equal(temp_dir, "/tmp") {
        match try_fallback(api_socket_path, "/tmp", basename.as_str()) {
            Some(found) => return found,
            None => {},
        }
    }
    proof {
        if digest::is_url_safe(id@) {
            lemma_fallback_basename(id@);
            // An API socket of that name would have room beside it.
            assert(!path::same_path(basename@, api_socket_path@));
        }
    }
    basename
}

/// The peer socket's path: a function of the API socket's path, the server
/// instance and the temporary directory. Whatever these are, it fits into a
/// socket address and is not the API socket's.
pub fn derive_peer_socket_path_with_temp_dir(
    api_socket_path: &str,
    instance_id: &str,
    temp_dir: &str,
    unix: bool,
) -> (r: String)
    ensures
        r@ == derived_path(
            api_socket_path@,
            opaque_id(api_socket_path@, instance_id@),
            temp_dir@,
            unix,
        ),
        opaque_id(api_socket_path@, instance_id@).len() == 43,
        is_usable(r@, api_socket_path@),
{
    let id = opaque_peer_socket_id(api_socket_path, instance_id);
    place_peer_socket(api_socket_path, id.as_str(), temp_dir, unix)
}

/// Whatever is derived from an identifier fits into a socket address. In a
/// directory it is not the API socket; where no directory will do, the bare name
/// is left.
pub proof fn lemma_derived_path_is_usable(
    api_path: Seq<char>,
    id: Seq<char>,
    temp_dir: Seq<char>,
    unix: bool,
)
    requires
        id.len() >= FALLBACK_PEER_HASH_CHARS,
        digest::is_url_safe(id),
    ensures
        text::utf8_len(derived_path(api_path, id, temp_dir, unix)) <= MAX_UNIX_SOCKET_PATH_BYTES,
        derived_path(api_path, id, temp_dir, unix) != fallback_basename(id) ==> is_usable(
            derived_path(api_path, id, temp_dir, unix),
            api_path,
        ),
{
    lemma_fallback_basename(id);
}

proof fn lemma_le64_digits(n: u64)
    ensures
        ({
            let x = digest::le64(n);
            n == x[0] + 0x100 * x[1] + 0x1_0000 * x[2] + 0x100_0000 * x[3] + 0x1_0000_0000 * x[4]
                + 0x100_0000_0000 * x[5] + 0x1_0000_0000_0000 * x[6] + 0x100_0000_0000_0000 * x[7]
        }),
{
    let n1 = n / 0x100;
    let n2 = n / 0x1_0000;
    let n3 = n / 0x100_0000;
    let n4 = n / 0x1_0000_0000;
    let n5 = n / 0x100_0000_0000;
    let n6 = n / 0x1_0000_0000_0000;
    let n7 = n / 0x100_0000_0000_0000;
    assert(n == n % 256 + 0x100 * n1);
    assert(n1 == n1 % 256 + 0x100 * n2);
    assert(n2 == n2 % 256 + 0x100 * n3);
    assert(n3 == n3 % 256 + 0x100 * n4);
    assert(n4 == n4 % 256 + 0x100 * n5);
    assert(n5 == n5 % 256 + 0x100 * n6);
    assert(n6 == n6 % 256 + 0x100 * n7);
    assert(n7 < 256);
}

proof fn lemma_le64_injective(a: u64, b: u64)
    requires
        digest::le64(a) == digest::le64(b),
    ensures
        a == b,
{
    let x = digest::le64(a);
    let y = digest::le64(b);
    assert(x[0] == y[0] && x[1] == y[1] && x[2] == y[2] && x[3] == y[3]);
    assert(x[4] == y[4] && x[5] == y[5] && x[6] == y[6] && x[7] == y[7]);
    lemma_le64_digits(a);
    lemma_le64_digits(b);
}

proof fn lemma_parts(head: Seq<u8>, n: Seq<u8>, a: Seq<u8>, k: Seq<u8>, b: Seq<u8>)
    requires
        n.len() == 8,
        k.len() == 8,
    ensures
        ({
            let x = head + n + a + k + b;
            let h = head.len() as int;
            &&& x.subrange(h, h + 8) == n
            &&& x.subrange(h + 8, h + 8 + a.len()) == a
            &&& x.subrange(h + 16 + a.len(), x.len() as int) == b
        }),
{
    let x = head + n + a + k + b;
    let h = head.len() as int;
    assert(x.subrange(h, h + 8) =~= n);
    assert(x.subrange(h + 8, h + 8 + a.len()) =~= a);
    assert(x.subrange(h + 16 + a.len(), x.len() as int) =~= b);
}

proof fn lemma_framed_apart(
    head: Seq<u8>,
    n: Seq<u8>,
    a: Seq<u8>,
    k: Seq<u8>,
    i: Seq<u8>,
    m: Seq<u8>,
    b: Seq<u8>,
    l: Seq<u8>,
    j: Seq<u8>,
)
    requires
        n.len() == 8,
        k.len() == 8,
        m.len() == 8,
        l.len() == 8,
        n == m ==> a.len() == b.len(),
        head + n + a + k + i == head + m + b + l + j,
    ensures
        a == b,
        i == j,
{
    lemma_parts(head, n, a, k, i);
    lemma_parts(head, m, b, l, j);
}

proof fn lemma_encoding_injective(a: Seq<char>, b: Seq<char>)
    requires
        encode_utf8(a) == encode_utf8(b),
    ensures
        a == b,
{
    encode_utf8_decode_utf8(a);
    encode_utf8_decode_utf8(b);
}

/// Two API sockets, or two instances of a server, never share what their peer sockets'
/// identifiers are made of.
pub proof fn lemma_sockets_are_told_apart(
    api_path: Seq<char>,
    instance_id: Seq<char>,
    other_path: Seq<char>,
    other_id: Seq<char>,
)
    requires
        text::utf8_len(api_path) <= u64::MAX,
        text::utf8_len(instance_id) <= u64::MAX,
        text::utf8_len(other_path) <= u64::MAX,
        text::utf8_len(other_id) <= u64::MAX,
        socket_identity(api_path, instance_id) == socket_identity(other_path, other_id),
    ensures
        api_path == other_path,
        instance_id == other_id,
{
    let n = text::utf8_len(api_path) as u64;
    let m = text::utf8_len(other_path) as u64;
    if digest::le64(n) == digest::le64(m) {
        lemma_le64_injective(n, m);
    }
    lemma_framed_apart(
        encode_utf8("herdr-peer-socket-v1"@),
        digest::le64(n),
        encode_utf8(api_path),
        digest::le64(text::utf8_len(instance_id) as u64),
        encode_utf8(instance_id),
        digest::le64(m),
        encode_utf8(other_path),
        digest::le64(text::utf8_len(other_id) as u64),
        encode_utf8(other_id),
    );
    lemma_encoding_injective(api_path, other_path);
    lemma_encoding_injective(instance_id, other_id);
}

/// The identifier of this server instance: process and start time.
pub open spec fn instance_id(pid: u32, started_nanos: u128) -> Seq<char> {
    text::hex(pid as nat) + "-"@ + text::hex(started_nanos as nat)
}

pub fn peer_socket_instance_id(pid: u32, started_nanos: u128) -> (r: String)
    ensures
        r@ == instance_id(pid, started_nanos),
{
    let mut s = text::hex_string(pid as u128);
    s.append("-");
    s.append(text::hex_string(started_nanos).as_str());
    s
}

} // verus!
