//! TLS ClientHello records: recognising one, reading the server name out of it, and putting
//! another server name in its place.

use vstd::prelude::*;
use vstd::slice::*;
use vstd::string::*;
use vstd::utf8::*;

use crate::encoding::{lossy_text, utf8_lossy, utf8_text};

verus! {

/// What keeps a server name from being replaced.
#[derive(Clone, Copy, Debug, PartialEq, Eq, Structural)]
pub enum TlsError {
    HostTooLong,
    LengthExceedsU16,
    HandshakeLengthExceedsU24,
}

impl TlsError {
    /// The error in words.
    pub open spec fn words(self) -> Seq<char> {
        match self {
            TlsError::HostTooLong => "TLS SNI host is too long"@,
            TlsError::LengthExceedsU16 => "TLS length exceeds u16"@,
            TlsError::HandshakeLengthExceedsU24 => "TLS handshake length exceeds u24"@,
        }
    }

    pub fn message(&self) -> (text: &'static str)
        ensures
            text@ == self.words(),
    {
        match self {
            TlsError::HostTooLong => "TLS SNI host is too long",
            TlsError::LengthExceedsU16 => "TLS length exceeds u16",
            TlsError::HandshakeLengthExceedsU24 => "TLS handshake length exceeds u24",
        }
    }
}

// Numbers in big-endian byte order.

/// The two bytes at `at` as a number.
pub open spec fn be16(s: Seq<u8>, at: int) -> int {
    s[at] * 0x100 + s[at + 1]
}

/// The three bytes at `at` as a number.
pub open spec fn be24(s: Seq<u8>, at: int) -> int {
    s[at] * 0x1_0000 + s[at + 1] * 0x100 + s[at + 2]
}

/// A number as two bytes.
pub open spec fn be16_bytes(value: int) -> Seq<u8> {
    seq![(value / 0x100) as u8, (value % 0x100) as u8]
}

/// A number as three bytes.
pub open spec fn be24_bytes(value: int) -> Seq<u8> {
    seq![(value / 0x1_0000) as u8, (value / 0x100 % 0x100) as u8, (value % 0x100) as u8]
}

/// `s` with `part` in place of the `removed` elements from `at` on.
pub open spec fn replaced(s: Seq<u8>, at: int, removed: int, part: Seq<u8>) -> Seq<u8> {
    s.take(at) + part + s.skip(at + removed)
}

// The layout of a record.

/// Whether the first bytes of a stream announce a TLS handshake record.
pub open spec fn client_hello_prefix(s: Seq<u8>) -> bool {
    s.len() >= 3 && s[0] == 0x16 && s[1] == 0x03 && s[2] <= 0x04
}

/// Where the handshake message in a record ends, by the length it states.
pub open spec fn message_end(r: Seq<u8>) -> int {
    9 + be24(r, 6)
}

/// Where the cipher suites stand: behind the version, the random bytes and the session id.
pub open spec fn ciphers_at(r: Seq<u8>) -> int {
    44 + r[43]
}

/// Where the compression methods stand.
pub open spec fn compression_at(r: Seq<u8>) -> int {
    ciphers_at(r) + 2 + be16(r, ciphers_at(r))
}

/// Where the length of the extensions stands.
pub open spec fn extensions_len_at(r: Seq<u8>) -> int {
    compression_at(r) + 1 + r[compression_at(r)]
}

/// Where the first extension starts.
pub open spec fn extensions_start(r: Seq<u8>) -> int {
    extensions_len_at(r) + 2
}

/// Where the last extension ends.
pub open spec fn extensions_end(r: Seq<u8>) -> int {
    extensions_start(r) + be16(r, extensions_len_at(r))
}

/// Whether a record holds a whole ClientHello message whose extensions lie within it.
pub open spec fn has_extensions(r: Seq<u8>) -> bool {
    &&& r.len() >= 9
    &&& r[5] == 1
    &&& be24(r, 6) >= 34
    &&& message_end(r) <= r.len()
    &&& extensions_end(r) <= message_end(r)
}

/// Where the extension after the one at `pos` starts.
pub open spec fn next_extension(r: Seq<u8>, pos: int) -> int {
    pos + 4 + be16(r, pos + 2)
}

/// Whether the extension at `pos` gives a server name that lies within it. A `listed` name has
/// moreover a name list with room for an entry.
pub open spec fn names_host(r: Seq<u8>, pos: int, listed: bool) -> bool {
    &&& be16(r, pos) == 0
    &&& be16(r, pos + 2) >= 5
    &&& r[pos + 6] == 0
    &&& listed ==> be16(r, pos + 4) >= 3
    &&& 5 + be16(r, pos + 7) <= be16(r, pos + 2)
}

/// The first extension from `pos` on that gives a server name, before any that overruns `end`.
pub open spec fn sni_extension(r: Seq<u8>, pos: int, end: int, listed: bool) -> Option<int>
    decreases end - pos,
{
    if pos + 4 > end || next_extension(r, pos) > end {
        None
    } else if names_host(r, pos, listed) {
        Some(pos)
    } else {
        sni_extension(r, next_extension(r, pos), end, listed)
    }
}

/// The server name in the extension at `pos`.
pub open spec fn host_name(r: Seq<u8>, pos: int) -> Seq<u8> {
    r.subrange(pos + 9, pos + 9 + be16(r, pos + 7))
}

// Reading the server name.

/// The extension from which the server name of a record is read.
pub open spec fn read_extension(r: Seq<u8>) -> Option<int> {
    if client_hello_prefix(r) && has_extensions(r) {
        sni_extension(r, extensions_start(r), extensions_end(r), false)
    } else {
        None
    }
}

/// The server name of a record, where it gives one in UTF-8.
pub open spec fn server_name(r: Seq<u8>) -> Option<Seq<char>> {
    match read_extension(r) {
        Some(pos) => if valid_utf8(host_name(r, pos)) {
            Some(decode_utf8(host_name(r, pos)))
        } else {
            None
        },
        None => None,
    }
}

/// Whether a record that announces a ClientHello is long enough to hold the head of the message.
pub open spec fn readable(r: Seq<u8>) -> bool {
    r.len() < 5 || !client_hello_prefix(r) || (r.len() > 5 && (r[5] != 1 || r.len() >= 9))
}

// Replacing the server name.

/// The extension whose server name is replaced.
pub open spec fn rewrite_extension(r: Seq<u8>) -> Option<int> {
    sni_extension(r, extensions_start(r), extensions_end(r), true)
}

/// Whether a record is one in which a server name is looked for.
pub open spec fn rewritable(r: Seq<u8>) -> bool {
    r.len() >= 9 && r[0] == 0x16 && has_extensions(r)
}

/// By how much a record grows when `host` takes the place of the name in the extension at `pos`.
pub open spec fn growth(r: Seq<u8>, pos: int, host: Seq<u8>) -> int {
    host.len() - be16(r, pos + 7)
}

/// `host` in place of the name in the extension at `pos`, and then the new length of the name, of
/// the name list, of the extension, of the message and of the record, in this order, up to the
/// first that its field cannot hold.
pub open spec fn with_name(r: Seq<u8>, pos: int, host: Seq<u8>) -> (Seq<u8>, Result<(), TlsError>) {
    let by = growth(r, pos, host);
    let list = be16(r, pos + 4) + by;
    let extension = be16(r, pos + 2) + by;
    let message = be24(r, 6) + by;
    let record = be16(r, 3) + by;
    let named = replaced(
        replaced(r, pos + 9, be16(r, pos + 7), host),
        pos + 7,
        2,
        be16_bytes(host.len() as int),
    );
    if !(0 <= list <= 0xffff) {
        (named, Err(TlsError::LengthExceedsU16))
    } else {
        let listed = replaced(named, pos + 4, 2, be16_bytes(list));
        if extension > 0xffff {
            (listed, Err(TlsError::LengthExceedsU16))
        } else {
            let extended = replaced(listed, pos + 2, 2, be16_bytes(extension));
            if message > 0xff_ffff {
                (extended, Err(TlsError::HandshakeLengthExceedsU24))
            } else {
                let whole = replaced(extended, 6, 3, be24_bytes(message));
                if !(0 <= record <= 0xffff) {
                    (whole, Err(TlsError::LengthExceedsU16))
                } else {
                    (replaced(whole, 3, 2, be16_bytes(record)), Ok(()))
                }
            }
        }
    }
}

/// What becomes of a record when its server name is replaced by `host`, and with what result.
pub open spec fn rewritten(r: Seq<u8>, host: Seq<u8>) -> (Seq<u8>, Result<(), TlsError>) {
    if !rewritable(r) {
        (r, Ok(()))
    } else if host.len() > 0xff {
        (r, Err(TlsError::HostTooLong))
    } else {
        match rewrite_extension(r) {
            Some(pos) => with_name(r, pos, host),
            None => (r, Ok(())),
        }
    }
}

/// What a replacement that succeeds has to report.
pub open spec fn rewrite_report(r: Seq<u8>, host: Seq<char>) -> Option<Seq<char>> {
    if !rewritable(r) {
        None
    } else {
        match rewrite_extension(r) {
            Some(pos) => Some(
                "game tls SNI rewrite "@ + utf8_lossy(host_name(r, pos)) + " -> "@ + host,
            ),
            None => Some("game tls SNI not present; private TLS endpoint selected"@),
        }
    }
}

pub fn is_tls_client_hello(prefix: &[u8]) -> (found: bool)
    ensures
        found == client_hello_prefix(prefix@),
{
    prefix.len() >= 3 && prefix[0] == 0x16 && prefix[1] == 0x03 && prefix[2] <= 0x04
}

/// Stores a number in a field of two bytes.
pub fn adjust_u16(bytes: &mut [u8], value: usize) -> (done: Result<(), TlsError>)
    ensures
        old(bytes)@.len() == 2 && value <= 0xffff ==> {
            &&& done == Ok::<(), TlsError>(())
            &&& final(bytes)@ == be16_bytes(value as int)
        },
        !(old(bytes)@.len() == 2 && value <= 0xffff) ==> {
            &&& done == Err::<(), TlsError>(TlsError::LengthExceedsU16)
            &&& final(bytes)@ == old(bytes)@
        },
{
    if bytes.len() != 2 || value > 0xffff {
        return Err(TlsError::LengthExceedsU16);
    }
    bytes[0] = (value / 0x100) as u8;
    bytes[1] = (value % 0x100) as u8;
    Ok(())
}

/// Stores a number in a field of three bytes.
pub fn adjust_u24(bytes: &mut [u8], value: usize) -> (done: Result<(), TlsError>)
    ensures
        old(bytes)@.len() == 3 && value <= 0xff_ffff ==> {
            &&& done == Ok::<(), TlsError>(())
            &&& final(bytes)@ == be24_bytes(value as int)
        },
        !(old(bytes)@.len() == 3 && value <= 0xff_ffff) ==> {
            &&& done == Err::<(), TlsError>(TlsError::HandshakeLengthExceedsU24)
            &&& final(bytes)@ == old(bytes)@
        },
{
    if bytes.len() != 3 || value > 0xff_ffff {
        return Err(TlsError::HandshakeLengthExceedsU24);
    }
    bytes[0] = (value / 0x1_0000) as u8;
    bytes[1] = (value / 0x100 % 0x100) as u8;
    bytes[2] = (value % 0x100) as u8;
    Ok(())
}

fn adjust_u16_at(record: &mut Vec<u8>, at: usize, value: usize) -> (done: Result<(), TlsError>)
    requires
        at + 2 <= old(record)@.len(),
    ensures
        final(record)@.len() == old(record)@.len(),
        value <= 0xffff ==> {
            &&& done == Ok::<(), TlsError>(())
            &&& final(record)@ == replaced(old(record)@, at as int, 2, be16_bytes(value as int))
        },
        value > 0xffff ==> {
            &&& done == Err::<(), TlsError>(TlsError::LengthExceedsU16)
            &&& final(record)@ == old(record)@
        },
{
    let (head, rest) = record.as_mut_slice().split_at_mut(at);
    let (field, tail) = rest.split_at_mut(2);
    adjust_u16(field, value)
}

fn adjust_u24_at(record: &mut Vec<u8>, at: usize, value: usize) -> (done: Result<(), TlsError>)
    requires
        at + 3 <= old(record)@.len(),
    ensures
        final(record)@.len() == old(record)@.len(),
        value <= 0xff_ffff ==> {
            &&& done == Ok::<(), TlsError>(())
            &&& final(record)@ == replaced(old(record)@, at as int, 3, be24_bytes(value as int))
        },
        value > 0xff_ffff ==> {
            &&& done == Err::<(), TlsError>(TlsError::HandshakeLengthExceedsU24)
            &&& final(record)@ == old(record)@
        },
{
    let (head, rest) = record.as_mut_slice().split_at_mut(at);
    let (field, tail) = rest.split_at_mut(3);
    adjust_u24(field, value)
}

fn number16(bytes: &[u8], at: usize) -> (n: usize)
    requires
        at + 2 <= bytes@.len(),
    ensures
        n == be16(bytes@, at as int),
        n <= 0xffff,
{
    bytes[at] as usize * 0x100 + bytes[at + 1] as usize
}

fn number24(bytes: &[u8], at: usize) -> (n: usize)
    requires
        at + 3 <= bytes@.len(),
    ensures
        n == be24(bytes@, at as int),
        n <= 0xff_ffff,
{
    bytes[at] as usize * 0x1_0000 + bytes[at + 1] as usize * 0x100 + bytes[at + 2] as usize
}

/// Where the extensions of a ClientHello start and end.
fn extensions_of(record: &[u8]) -> (range: Option<(usize, usize)>)
    ensures
        range is Some <==> has_extensions(record@),
        range matches Some((start, end)) ==> {
            &&& start == extensions_start(record@)
            &&& end == extensions_end(record@)
            &&& start <= end <= message_end(record@) <= record@.len()
        },
{
    if record.len() < 9 || record[5] != 1 {
        return None;
    }
    let message_len = number24(record, 6);
    let message_end = 9 + message_len;
    if message_end > record.len() || message_len < 34 {
        return None;
    }
    if message_end < 44 {
        return None;
    }
    let ciphers_at = 44 + record[43] as usize;
    if ciphers_at + 2 > message_end {
        return None;
    }
    let compression_at = ciphers_at + 2 + number16(record, ciphers_at);
    if compression_at >= message_end {
        return None;
    }
    let len_at = compression_at + 1 + record[compression_at] as usize;
    if len_at + 2 > message_end {
        return None;
    }
    let start = len_at + 2;
    let end = start + number16(record, len_at);
    if end > message_end {
        return None;
    }
    Some((start, end))
}

/// The first extension in a range that gives a server name.
fn find_sni(record: &[u8], start: usize, end: usize, listed: bool) -> (at: Option<usize>)
    requires
        start <= end <= record@.len(),
    ensures
        at is Some <==> sni_extension(record@, start as int, end as int, listed) is Some,
        at matches Some(pos) ==> {
            &&& sni_extension(record@, start as int, end as int, listed) == Some(pos as int)
            &&& start <= pos
            &&& next_extension(record@, pos as int) <= end
            &&& names_host(record@, pos as int, listed)
        },
{
    let mut pos: usize = start;
    while end - pos >= 4
        invariant
            start <= pos <= end <= record@.len(),
            sni_extension(record@, start as int, end as int, listed) == sni_extension(
                record@,
                pos as int,
                end as int,
                listed,
            ),
        decreases end - pos,
    {
        let len = number16(record, pos + 2);
        if len > end - pos - 4 {
            return None;
        }
        if number16(record, pos) == 0 && len >= 5 {
            let list_len = number16(record, pos + 4);
            let name_len = number16(record, pos + 7);
            if record[pos + 6] == 0 && (!listed || list_len >= 3) && 5 + name_len <= len {
                return Some(pos);
            }
        }
        pos = pos + 4 + len;
    }
    None
}

/// Whether a server name can be read out of a record; `extract_tls_sni` takes no other.
pub fn is_readable(record: &[u8]) -> (can: bool)
    ensures
        can == readable(record@),
{
    record.len() < 5 || !is_tls_client_hello(record) || (record.len() > 5 && (record[5] != 1
        || record.len() >= 9))
}

/// Reads the server name out of a record.
pub fn extract_tls_sni(record: &[u8]) -> (name: Option<String>)
    requires
        readable(record@),
    ensures
        name is Some <==> server_name(record@) is Some,
        name is Some ==> name->0@ == server_name(record@)->0,
{
    if record.len() < 5 || !is_tls_client_hello(record) || record[5] != 1 {
        return None;
    }
    match extensions_of(record) {
        Some((start, end)) => match find_sni(record, start, end, false) {
            Some(pos) => {
                let name_len = number16(record, pos + 7);
                utf8_text(slice_to_vec(slice_subrange(record, pos + 9, pos + 9 + name_len)))
            },
            None => None,
        },
        None => None,
    }
}

/// A length after `removed` units have given way to `added`; one that would be negative is too
/// large for every field.
fn moved(len: usize, removed: usize, added: usize) -> (moved: usize)
    requires
        len <= 0xff_ffff,
        removed <= 0xffff,
        added <= 0xff,
    ensures
        len + added - removed >= 0 ==> moved == len + added - removed,
        len + added - removed < 0 ==> moved == usize::MAX,
{
    if len + added >= removed {
        len + added - removed
    } else {
        usize::MAX
    }
}

fn replace_bytes(record: &mut Vec<u8>, at: usize, removed: usize, part: &[u8])
    requires
        at + removed <= old(record)@.len(),
    ensures
        final(record)@ == replaced(old(record)@, at as int, removed as int, part@),
        final(record)@.len() == old(record)@.len() - removed + part@.len(),
{
    assert(record@.len() == record.len());
    let mut tail = record.split_off(at + removed);
    record.truncate(at);
    record.extend_from_slice(part);
    record.append(&mut tail);
}

/// Replaces the name in the extension at `pos`, and then the lengths around it.
fn replace_name(record: &mut Vec<u8>, pos: usize, target: &[u8]) -> (done: Result<(), TlsError>)
    requires
        9 <= pos,
        names_host(old(record)@, pos as int, true),
        next_extension(old(record)@, pos as int) <= message_end(old(record)@),
        message_end(old(record)@) <= old(record)@.len(),
        target@.len() <= 0xff,
    ensures
        final(record)@ == with_name(old(record)@, pos as int, target@).0,
        done == with_name(old(record)@, pos as int, target@).1,
{
    let ghost r = record@;
    let ghost by = growth(r, pos as int, target@);
    assert(record@.len() == record.len());
    let message_len = number24(record.as_slice(), 6);
    let record_len = number16(record.as_slice(), 3);
    let extension_len = number16(record.as_slice(), pos + 2);
    let list_len = number16(record.as_slice(), pos + 4);
    let old_len = number16(record.as_slice(), pos + 7);
    let len = target.len();

    let new_list_len = moved(list_len, old_len, len);
    let new_extension_len = moved(extension_len, old_len, len);
    let new_message_len = moved(message_len, old_len, len);
    let new_record_len = moved(record_len, old_len, len);

    replace_bytes(record, pos + 9, old_len, target);
    if let Err(error) = adjust_u16_at(record, pos + 7, len) {
        return Err(error);
    }
    let ghost named = record@;
    if let Err(error) = adjust_u16_at(record, pos + 4, new_list_len) {
        assert(!(0 <= be16(r, pos + 4) + by <= 0xffff));
        return Err(error);
    }
    let ghost listed = record@;
    assert(listed == replaced(named, pos + 4, 2, be16_bytes(be16(r, pos + 4) + by)));
    if let Err(error) = adjust_u16_at(record, pos + 2, new_extension_len) {
        assert(be16(r, pos + 2) + by > 0xffff);
        return Err(error);
    }
    let ghost extended = record@;
    assert(extended == replaced(listed, pos + 2, 2, be16_bytes(be16(r, pos + 2) + by)));
    if let Err(error) = adjust_u24_at(record, 6, new_message_len) {
        assert(be24(r, 6) + by > 0xff_ffff);
        return Err(error);
    }
    let ghost whole = record@;
    assert(whole == replaced(extended, 6, 3, be24_bytes(be24(r, 6) + by)));
    adjust_u16_at(record, 3, new_record_len)
}

/// Replaces the server name of a record by `target_host`. What it returns is to be reported.
pub fn rewrite_tls_sni(record: &mut Vec<u8>, target_host: &str) -> (done: Result<
    Option<String>,
    TlsError,
>)
    ensures
        final(record)@ == rewritten(old(record)@, encode_utf8(target_host@)).0,
        match rewritten(old(record)@, encode_utf8(target_host@)).1 {
            Ok(_) => match rewrite_report(old(record)@, target_host@) {
                Some(report) => done matches Ok(Some(text)) && text@ == report,
                None => done matches Ok(None),
            },
            Err(error) => done matches Err(e) && e == error,
        },
{
    if record.len() < 9 || record[0] != 0x16 {
        return Ok(None);
    }
    let (start, end) = match extensions_of(record.as_slice()) {
        Some(range) => range,
        None => return Ok(None),
    };
    let target = target_host.as_bytes();
    if target.len() > 0xff {
        return Err(TlsError::HostTooLong);
    }
    let pos = match find_sni(record.as_slice(), start, end, true) {
        Some(pos) => pos,
        None => {
            return Ok(Some("game tls SNI not present; private TLS endpoint selected".to_owned()));
        },
    };
    let old_len = number16(record.as_slice(), pos + 7);
    let original = lossy_text(slice_subrange(record.as_slice(), pos + 9, pos + 9 + old_len));
    if let Err(error) = replace_name(record, pos, target) {
        return Err(error);
    }
    let mut report = "game tls SNI rewrite ".to_owned();
    report.append(original.as_str());
    report.append(" -> ");
    report.append(target_host);
    Ok(Some(report))
}

// Laws.

/// An extension that gives a server name lies behind the head of the message.
proof fn lemma_extension_found(r: Seq<u8>, pos: int, end: int, listed: bool)
    ensures
        sni_extension(r, pos, end, listed) matches Some(p) ==> {
            &&& pos <= p
            &&& next_extension(r, p) <= end
            &&& names_host(r, p, listed)
        },
    decreases end - pos,
{
    if pos + 4 <= end && next_extension(r, pos) <= end && !names_host(r, pos, listed) {
        lemma_extension_found(r, next_extension(r, pos), end, listed);
    }
}

/// `n` is the record `r` with `host` for the name in the extension at `p`: the name and the five
/// lengths around it are new, what stands behind the name has moved by its growth, and every
/// other byte is the same.
pub open spec fn renamed(r: Seq<u8>, n: Seq<u8>, p: int, host: Seq<u8>) -> bool {
    let by = growth(r, p, host);
    &&& n.len() == r.len() + by
    &&& be16(n, 3) == be16(r, 3) + by
    &&& be24(n, 6) == be24(r, 6) + by
    &&& be16(n, p + 2) == be16(r, p + 2) + by
    &&& be16(n, p + 4) == be16(r, p + 4) + by
    &&& be16(n, p + 7) == host.len()
    &&& host_name(n, p) == host
    &&& n.take(3) == r.take(3)
    &&& n[5] == r[5]
    &&& n.subrange(9, p + 2) == r.subrange(9, p + 2)
    &&& n[p + 6] == r[p + 6]
    &&& n.skip(p + 9 + host.len()) == r.skip(p + 9 + be16(r, p + 7))
}

/// A replacement that succeeds changes the name and the five lengths around it, and nothing else.
pub proof fn rewriting_changes_only_name_and_lengths(r: Seq<u8>, host: Seq<u8>, p: int)
    requires
        rewritable(r),
        rewrite_extension(r) == Some(p),
        rewritten(r, host).1 is Ok,
    ensures
        renamed(r, rewritten(r, host).0, p, host),
{
    lemma_extension_found(r, extensions_start(r), extensions_end(r), true);
    let by = growth(r, p, host);
    let moved = replaced(r, p + 9, be16(r, p + 7), host);
    let named = replaced(moved, p + 7, 2, be16_bytes(host.len() as int));
    let listed = replaced(named, p + 4, 2, be16_bytes(be16(r, p + 4) + by));
    let extended = replaced(listed, p + 2, 2, be16_bytes(be16(r, p + 2) + by));
    let whole = replaced(extended, 6, 3, be24_bytes(be24(r, 6) + by));
    let n = replaced(whole, 3, 2, be16_bytes(be16(r, 3) + by));
    assert(n == rewritten(r, host).0);
    lemma_replaced(r, p + 9, be16(r, p + 7), host);
    lemma_field(moved, p + 7, be16_bytes(host.len() as int));
    lemma_field(named, p + 4, be16_bytes(be16(r, p + 4) + by));
    lemma_field(listed, p + 2, be16_bytes(be16(r, p + 2) + by));
    lemma_field(extended, 6, be24_bytes(be24(r, 6) + by));
    lemma_field(whole, 3, be16_bytes(be16(r, 3) + by));
    lemma_fields_set(r, host, p, moved, named, listed, extended, whole, n);
}

/// `t` is `s` with `part` in place of the `removed` elements from `at` on.
spec fn differs_at(s: Seq<u8>, t: Seq<u8>, at: int, removed: int, part: Seq<u8>) -> bool {
    &&& t.len() == s.len() + part.len() - removed
    &&& forall|i: int| 0 <= i < at ==> #[trigger] t[i] == s[i]
    &&& forall|i: int| at <= i < at + part.len() ==> #[trigger] t[i] == part[i - at]
    &&& forall|i: int|
        at + part.len() <= i < t.len() ==> #[trigger] t[i] == s[i + removed - part.len()]
}

/// `t` is `s` with `part` in place of the elements from `at` on.
spec fn field_set(s: Seq<u8>, t: Seq<u8>, at: int, part: Seq<u8>) -> bool {
    &&& t.len() == s.len()
    &&& forall|i: int|
        0 <= i < s.len() ==> #[trigger] t[i] == if at <= i < at + part.len() {
            part[i - at]
        } else {
            s[i]
        }
}

proof fn lemma_field(s: Seq<u8>, at: int, part: Seq<u8>)
    requires
        0 <= at,
        at + part.len() <= s.len(),
    ensures
        field_set(s, replaced(s, at, part.len() as int, part), at, part),
{
}

/// The bytes of a number read as that number.
proof fn lemma_numbers(value: int)
    ensures
        be16_bytes(value).len() == 2,
        be24_bytes(value).len() == 3,
        0 <= value <= 0xffff ==> be16(be16_bytes(value), 0) == value,
        0 <= value <= 0xff_ffff ==> be24(be24_bytes(value), 0) == value,
{
}

proof fn lemma_replaced(s: Seq<u8>, at: int, removed: int, part: Seq<u8>)
    requires
        0 <= at,
        0 <= removed,
        at + removed <= s.len(),
    ensures
        differs_at(s, replaced(s, at, removed, part), at, removed, part),
{
}

/// The steps of a replacement, taken together.
proof fn lemma_fields_set(
    r: Seq<u8>,
    host: Seq<u8>,
    p: int,
    moved: Seq<u8>,
    named: Seq<u8>,
    listed: Seq<u8>,
    extended: Seq<u8>,
    whole: Seq<u8>,
    n: Seq<u8>,
)
    requires
        9 <= p,
        p + 9 + be16(r, p + 7) <= r.len(),
        host.len() <= 0xff,
        0 <= be16(r, p + 4) + growth(r, p, host) <= 0xffff,
        0 <= be16(r, p + 2) + growth(r, p, host) <= 0xffff,
        0 <= be24(r, 6) + growth(r, p, host) <= 0xff_ffff,
        0 <= be16(r, 3) + growth(r, p, host) <= 0xffff,
        differs_at(r, moved, p + 9, be16(r, p + 7), host),
        field_set(moved, named, p + 7, be16_bytes(host.len() as int)),
        field_set(named, listed, p + 4, be16_bytes(be16(r, p + 4) + growth(r, p, host))),
        field_set(listed, extended, p + 2, be16_bytes(be16(r, p + 2) + growth(r, p, host))),
        field_set(extended, whole, 6, be24_bytes(be24(r, 6) + growth(r, p, host))),
        field_set(whole, n, 3, be16_bytes(be16(r, 3) + growth(r, p, host))),
    ensures
        renamed(r, n, p, host),
{
    lemma_numbers(host.len() as int);
    lemma_numbers(be16(r, p + 4) + growth(r, p, host));
    lemma_numbers(be16(r, p + 2) + growth(r, p, host));
    lemma_numbers(be24(r, 6) + growth(r, p, host));
    lemma_numbers(be16(r, 3) + growth(r, p, host));
    assert(be16(n, p + 7) == host.len());
    assert(host_name(n, p) == host);
    assert(n.take(3) == r.take(3));
    assert(n.subrange(9, p + 2) == r.subrange(9, p + 2));
    assert(n.skip(p + 9 + host.len()) == r.skip(p + 9 + be16(r, p + 7)));
}

/// Up to the extension at `p`, whose name is replaced, records that agree there are walked alike.
proof fn lemma_same_walk(r: Seq<u8>, n: Seq<u8>, pos: int, end: int, p: int)
    requires
        0 <= pos,
        sni_extension(r, pos, end, true) == Some(p),
        forall|i: int| pos <= i < p ==> #[trigger] n[i] == r[i],
    ensures
        sni_extension(r, pos, end, false) is Some,
        ({
            let q = sni_extension(r, pos, end, false)->0;
            &&& pos <= q <= p
            &&& q < p ==> q + 9 <= p && q + 9 + be16(r, q + 7) <= p && sni_extension(
                n,
                pos,
                end,
                false,
            ) == Some(q)
            &&& q == p ==> sni_extension(n, pos, end, false) == sni_extension(n, p, end, false)
        }),
    decreases end - pos,
{
    lemma_extension_found(r, pos, end, true);
    if pos != p {
        let next = next_extension(r, pos);
        lemma_extension_found(r, next, end, true);
        assert(next <= p);
        assert(next_extension(n, pos) == next);
        if names_host(r, pos, false) {
            assert(names_host(n, pos, false));
        } else {
            assert(!names_host(n, pos, false));
            lemma_same_walk(r, n, next, end, p);
        }
    }
}

/// The name that was put in place of another is read back exactly where the record still fits the
/// length of its extensions, which a replacement leaves as it was, and where no name is read from
/// an earlier extension, unless that name is the same.
pub proof fn replaced_name_is_read_back(r: Seq<u8>, host: Seq<char>, p: int)
    requires
        rewritable(r),
        rewrite_extension(r) == Some(p),
        rewritten(r, encode_utf8(host)).1 is Ok,
    ensures
        server_name(rewritten(r, encode_utf8(host)).0) == Some(host) <==> {
            &&& client_hello_prefix(r)
            &&& extensions_end(r) <= message_end(r) + growth(r, p, encode_utf8(host))
            &&& if read_extension(r) == Some(p) {
                next_extension(r, p) + growth(r, p, encode_utf8(host)) <= extensions_end(r)
            } else {
                server_name(r) == Some(host)
            }
        },
{
    let bytes = encode_utf8(host);
    rewriting_changes_only_name_and_lengths(r, bytes, p);
    encode_utf8_valid_utf8(host);
    encode_utf8_decode_utf8(host);
    lemma_renamed_is_read(r, rewritten(r, bytes).0, bytes, p);
}

/// Where a renamed record is read, and what.
proof fn lemma_renamed_is_read(r: Seq<u8>, n: Seq<u8>, host: Seq<u8>, p: int)
    requires
        rewritable(r),
        rewrite_extension(r) == Some(p),
        renamed(r, n, p, host),
    ensures
        !(client_hello_prefix(r) && extensions_end(r) <= message_end(r) + growth(r, p, host))
            ==> read_extension(n) is None,
        client_hello_prefix(r) && extensions_end(r) <= message_end(r) + growth(r, p, host) ==> (
        if read_extension(r) == Some(p) {
            read_extension(n) == if next_extension(r, p) + growth(r, p, host) <= extensions_end(
                r,
            ) {
                Some(p)
            } else {
                None
            }
        } else {
            &&& read_extension(r) is Some
            &&& read_extension(n) == read_extension(r)
            &&& host_name(n, read_extension(n)->0) == host_name(r, read_extension(r)->0)
        }),
{
    let by = growth(r, p, host);
    let start = extensions_start(r);
    let end = extensions_end(r);
    lemma_extension_found(r, start, end, true);
    assert forall|i: int| 0 <= i < 3 implies #[trigger] n[i] == r[i] by {
        assert(n.take(3)[i] == r.take(3)[i]);
    }
    assert forall|i: int| 9 <= i < p + 2 implies #[trigger] n[i] == r[i] by {
        assert(n.subrange(9, p + 2)[i - 9] == r.subrange(9, p + 2)[i - 9]);
    }
    assert(client_hello_prefix(n) == client_hello_prefix(r));
    assert(ciphers_at(n) == ciphers_at(r));
    assert(compression_at(n) == compression_at(r));
    assert(extensions_start(n) == start && extensions_end(n) == end);
    assert(message_end(n) == message_end(r) + by);
    assert(has_extensions(n) <==> end <= message_end(r) + by);
    lemma_same_walk(r, n, start, end, p);
    let q = sni_extension(r, start, end, false)->0;
    if client_hello_prefix(r) && end <= message_end(r) + by {
        if q == p {
            assert(next_extension(n, p) == next_extension(r, p) + by);
            if next_extension(n, p) <= end {
                assert(names_host(n, p, false));
            }
        } else {
            assert(host_name(n, q) == host_name(r, q));
        }
    }
}

/// Replacing a name by itself leaves the record as it is.
pub proof fn replacing_a_name_by_itself_changes_nothing(r: Seq<u8>, p: int)
    requires
        rewritable(r),
        rewrite_extension(r) == Some(p),
        host_name(r, p).len() <= 0xff,
    ensures
        rewritten(r, host_name(r, p)) == (r, Ok::<(), TlsError>(())),
{
    let host = host_name(r, p);
    lemma_extension_found(r, extensions_start(r), extensions_end(r), true);
    assert(growth(r, p, host) == 0);
    assert(rewritten(r, host).1 is Ok);
    rewriting_changes_only_name_and_lengths(r, host, p);
    lemma_renamed_alike(r, rewritten(r, host).0, p);
}

/// A record that is renamed to the name it has is the same record.
proof fn lemma_renamed_alike(r: Seq<u8>, n: Seq<u8>, p: int)
    requires
        9 <= p,
        p + 9 + be16(r, p + 7) <= r.len(),
        renamed(r, n, p, host_name(r, p)),
    ensures
        n == r,
{
    let host = host_name(r, p);
    assert(n.len() == r.len());
    assert forall|i: int| 0 <= i < r.len() implies #[trigger] n[i] == r[i] by {
        if i < 3 {
            assert(n.take(3)[i] == r.take(3)[i]);
        } else if 9 <= i < p + 2 {
            assert(n.subrange(9, p + 2)[i - 9] == r.subrange(9, p + 2)[i - 9]);
        } else if p + 9 <= i < p + 9 + host.len() {
            assert(host_name(n, p)[i - p - 9] == host[i - p - 9]);
        } else if p + 9 + host.len() <= i {
            let k = p + 9 + host.len();
            assert(n.skip(k)[i - k] == r.skip(k)[i - k]);
        }
    }
}

/// A stream announces a TLS handshake record by its first three bytes.
pub proof fn three_bytes_announce_a_record(first: u8, second: u8, third: u8, rest: Seq<u8>)
    ensures
        client_hello_prefix(seq![first, second, third] + rest) <==> first == 22 && second == 3
            && third <= 4,
        rest.len() < 3 ==> !client_hello_prefix(rest),
{
    let s = seq![first, second, third] + rest;
    assert(s[0] == first && s[1] == second && s[2] == third);
}

/// Numbers stand in two and in three bytes with the high one first.
pub proof fn numbers_stand_high_byte_first(high: u8, middle: u8, low: u8)
    ensures
        be16(seq![high, low], 0) == high * 256 + low,
        be16_bytes(high * 256 + low) == seq![high, low],
        be24(seq![high, middle, low], 0) == high * 65536 + middle * 256 + low,
        be24_bytes(high * 65536 + middle * 256 + low) == seq![high, middle, low],
{
    assert(be16_bytes(high * 256 + low) == seq![high, low]);
    assert(be24_bytes(high * 65536 + middle * 256 + low) == seq![high, middle, low]);
}

/// What cannot be read is a TLS record that ends with its head, or a ClientHello in one that ends
/// within the length of the message.
pub proof fn only_short_records_cannot_be_read(r: Seq<u8>)
    ensures
        !readable(r) <==> {
            &&& 5 <= r.len() < 9
            &&& r[0] == 22 && r[1] == 3 && r[2] <= 4
            &&& r.len() == 5 || r[5] == 1
        },
{
}

}
