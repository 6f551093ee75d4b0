//! ClientHello records put together from their parts: which server name is read out of one, and
//! what becomes of one whose server name is replaced.

use vstd::prelude::*;
use vstd::utf8::*;

use crate::encoding::utf8_lossy;
use crate::tls::{
    be16, be24, ciphers_at, client_hello_prefix, compression_at, extensions_end, extensions_len_at,
    extensions_start, has_extensions, host_name, message_end, names_host, next_extension,
    read_extension, renamed, replaced, rewritable, rewrite_extension, rewrite_report,
    rewriting_changes_only_name_and_lengths, rewritten, server_name, sni_extension, with_name,
    TlsError,
};

verus! {

// The parts.

/// A length in two bytes, the high one first.
pub open spec fn two(n: int) -> Seq<u8> {
    seq![(n / 256) as u8, (n % 256) as u8]
}

/// A length in three bytes, the highest first.
pub open spec fn three(n: int) -> Seq<u8> {
    seq![(n / 65536) as u8, (n / 256 % 256) as u8, (n % 256) as u8]
}

/// An extension: the two bytes of its type, and what it holds.
pub struct Extension {
    pub kind: (u8, u8),
    pub body: Seq<u8>,
}

impl Extension {
    pub open spec fn bytes(self) -> Seq<u8> {
        seq![self.kind.0, self.kind.1] + two(self.body.len() as int) + self.body
    }

    /// Whether the extension gives a server name: it is of type zero, and behind the length of the
    /// name list stand a zero and a name that lies within it. For a `listed` name, the list must
    /// have room for an entry.
    pub open spec fn gives_name(self, listed: bool) -> bool {
        &&& self.kind == (0u8, 0u8)
        &&& self.body.len() >= 5
        &&& self.body[2] == 0
        &&& 5 + self.body[3] * 256 + self.body[4] <= self.body.len()
        &&& listed ==> self.body[0] * 256 + self.body[1] >= 3
    }
}

/// What the extension for a server name holds: the length of the name list, the type of the name,
/// its length, the name itself, and whatever stands behind it.
pub open spec fn name_entry(list: int, name: Seq<u8>, rest: Seq<u8>) -> Seq<u8> {
    two(list) + seq![0u8] + two(name.len() as int) + name + rest
}

/// The extension for a server name.
pub open spec fn server_name_extension(list: int, name: Seq<u8>, rest: Seq<u8>) -> Extension {
    Extension { kind: (0, 0), body: name_entry(list, name, rest) }
}

/// Extensions, one after the other.
pub open spec fn laid_out(extensions: Seq<Extension>) -> Seq<u8>
    decreases extensions.len(),
{
    if extensions.len() == 0 {
        seq![]
    } else {
        extensions[0].bytes() + laid_out(extensions.skip(1))
    }
}

/// Whether bytes start with no whole extension.
pub open spec fn starts_no_extension(bytes: Seq<u8>) -> bool {
    bytes.len() < 4 || 4 + bytes[2] * 256 + bytes[3] > bytes.len()
}

/// The parts of a record with a ClientHello.
pub struct Hello {
    /// The type, the version and the length of the record.
    pub head: Seq<u8>,
    /// The version and the random bytes of the message.
    pub opening: Seq<u8>,
    pub session: Seq<u8>,
    pub ciphers: Seq<u8>,
    pub compression: Seq<u8>,
    /// What the message states as the length of its extensions.
    pub stated: int,
    pub extensions: Seq<u8>,
    /// What the message holds behind its extensions.
    pub more: Seq<u8>,
    /// What the record holds behind the message.
    pub beyond: Seq<u8>,
}

impl Hello {
    /// What stands before the extensions.
    pub open spec fn front(self) -> Seq<u8> {
        self.opening + seq![self.session.len() as u8] + self.session + two(
            self.ciphers.len() as int,
        ) + self.ciphers + seq![self.compression.len() as u8] + self.compression + two(self.stated)
    }

    pub open spec fn message(self) -> Seq<u8> {
        self.front() + self.extensions + self.more
    }

    #[verifier::opaque]
    pub open spec fn bytes(self) -> Seq<u8> {
        self.head + seq![1u8] + three(self.message().len() as int) + self.message() + self.beyond
    }

    /// Whether every part fits its length.
    pub open spec fn fits(self) -> bool {
        &&& self.head.len() == 5
        &&& self.opening.len() == 34
        &&& self.session.len() <= 0xff
        &&& self.ciphers.len() <= 0xffff
        &&& self.compression.len() <= 0xff
        &&& self.stated == self.extensions.len()
        &&& self.stated <= 0xffff
        &&& self.message().len() <= 0xff_ffff
    }

    /// Whether the head is that of a TLS handshake record.
    pub open spec fn is_tls(self) -> bool {
        self.head[0] == 0x16 && self.head[1] == 3 && self.head[2] <= 4
    }
}

// Where the parts stand.

proof fn lemma_two(n: int)
    requires
        0 <= n <= 0xffff,
    ensures
        two(n).len() == 2,
        two(n)[0] * 256 + two(n)[1] == n,
{
}

proof fn lemma_three(n: int)
    requires
        0 <= n <= 0xff_ffff,
    ensures
        three(n).len() == 3,
        three(n)[0] * 65536 + three(n)[1] * 256 + three(n)[2] == n,
{
}

/// Whether `r` starts with `front`.
#[verifier::opaque]
spec fn starts_with(r: Seq<u8>, front: Seq<u8>) -> bool {
    front.len() <= r.len() && r.take(front.len() as int) == front
}

/// What a start ends with is found behind the rest of it.
proof fn lemma_part(r: Seq<u8>, before: Seq<u8>, part: Seq<u8>)
    requires
        starts_with(r, before + part),
    ensures
        starts_with(r, before),
        r.len() >= before.len() + part.len(),
        forall|i: int| 0 <= i < part.len() ==> r[before.len() + i] == #[trigger] part[i],
{
    reveal(starts_with);
    let whole = before + part;
    assert forall|i: int| 0 <= i < whole.len() implies #[trigger] r[i] == whole[i] by {
        assert(r.take(whole.len() as int)[i] == whole[i]);
    }
    assert(r.take(before.len() as int) == before);
}

/// And as a whole.
proof fn lemma_piece(r: Seq<u8>, before: Seq<u8>, part: Seq<u8>)
    requires
        starts_with(r, before + part),
    ensures
        starts_with(r, before),
        r.len() >= before.len() + part.len(),
        r.subrange(before.len() as int, (before.len() + part.len()) as int) == part,
{
    lemma_part(r, before, part);
    assert(r.subrange(before.len() as int, (before.len() + part.len()) as int) == part);
}

proof fn lemma_start(r: Seq<u8>, front: Seq<u8>, rest: Seq<u8>)
    requires
        r == front + rest,
    ensures
        starts_with(r, front),
{
    reveal(starts_with);
    assert(r.take(front.len() as int) == front);
}

proof fn lemma_take(r: Seq<u8>, front: Seq<u8>)
    requires
        starts_with(r, front),
    ensures
        r.take(front.len() as int) == front,
{
    reveal(starts_with);
}

#[verifier::spinoff_prover]
#[verifier::rlimit(40)]
proof fn lemma_layout(h: Hello)
    requires
        h.fits(),
    ensures
        h.bytes().len() == 9 + h.message().len() + h.beyond.len(),
        h.bytes().take(5) == h.head,
        h.bytes()[5] == 1,
        be24(h.bytes(), 6) == h.message().len(),
        has_extensions(h.bytes()),
        extensions_start(h.bytes()) == 9 + h.front().len(),
        extensions_end(h.bytes()) == 9 + h.front().len() + h.extensions.len(),
        h.bytes().subrange(extensions_start(h.bytes()), extensions_end(h.bytes())) == h.extensions,
{
    reveal(Hello::bytes);
    let r = h.bytes();
    let len = h.message().len() as int;
    lemma_three(len);
    lemma_two(h.ciphers.len() as int);
    lemma_two(h.stated);
    let a0 = h.head;
    let a1 = a0 + seq![1u8];
    let a2 = a1 + three(len);
    let a3 = a2 + h.opening;
    let a4 = a3 + seq![h.session.len() as u8];
    let a5 = a4 + h.session;
    let a6 = a5 + two(h.ciphers.len() as int);
    let a7 = a6 + h.ciphers;
    let a8 = a7 + seq![h.compression.len() as u8];
    let a9 = a8 + h.compression;
    let a10 = a9 + two(h.stated);
    let a11 = a10 + h.extensions;
    let a12 = a11 + h.more;
    let all = a12 + h.beyond;
    assert(a2 + h.front() == a10);
    assert(a2 + h.message() == a12);
    assert(r == all);
    lemma_start(r, a12, h.beyond);
    lemma_part(r, a11, h.more);
    lemma_piece(r, a10, h.extensions);
    lemma_part(r, a9, two(h.stated));
    lemma_part(r, a8, h.compression);
    lemma_part(r, a7, seq![h.compression.len() as u8]);
    lemma_part(r, a6, h.ciphers);
    lemma_part(r, a5, two(h.ciphers.len() as int));
    lemma_part(r, a4, h.session);
    lemma_part(r, a3, seq![h.session.len() as u8]);
    lemma_part(r, a2, h.opening);
    lemma_part(r, a1, three(len));
    lemma_part(r, a0, seq![1u8]);
    lemma_take(r, a0);
    assert(r[5] == seq![1u8][0]);
    assert(r[6] == three(len)[0] && r[7] == three(len)[1] && r[8] == three(len)[2]);
    assert(r[43] == seq![h.session.len() as u8][0]);
    let at = ciphers_at(r);
    assert(at == a5.len());
    assert(r[at] == two(h.ciphers.len() as int)[0] && r[at + 1] == two(
        h.ciphers.len() as int,
    )[1]);
    assert(compression_at(r) == a7.len());
    assert(r[compression_at(r)] == seq![h.compression.len() as u8][0]);
    let at = extensions_len_at(r);
    assert(at == a9.len());
    assert(r[at] == two(h.stated)[0] && r[at + 1] == two(h.stated)[1]);
}

// Walking over the extensions.

#[verifier::spinoff_prover]
#[verifier::rlimit(40)]
proof fn lemma_extension(r: Seq<u8>, pos: int, end: int, e: Extension, rest: Seq<u8>, listed: bool)
    requires
        0 <= pos <= end <= r.len(),
        end - pos <= 0xffff,
        r.subrange(pos, end) == e.bytes() + rest,
    ensures
        pos + 4 <= end,
        next_extension(r, pos) == pos + e.bytes().len(),
        next_extension(r, pos) <= end,
        r.subrange(next_extension(r, pos), end) == rest,
        r.subrange(pos + 4, next_extension(r, pos)) == e.body,
        names_host(r, pos, listed) == e.gives_name(listed),
{
    let part = r.subrange(pos, end);
    let all = e.bytes() + rest;
    assert(e.bytes().len() == 4 + e.body.len());
    assert(all.len() == end - pos);
    lemma_two(e.body.len() as int);
    assert forall|i: int| 0 <= i < all.len() implies #[trigger] r[pos + i] == all[i] by {
        assert(part[i] == r[pos + i]);
    }
    assert(r[pos + 0] == all[0] && all[0] == e.kind.0);
    assert(r[pos + 1] == all[1] && all[1] == e.kind.1);
    assert(r[pos + 2] == all[2] && all[2] == two(e.body.len() as int)[0]);
    assert(r[pos + 3] == all[3] && all[3] == two(e.body.len() as int)[1]);
    assert(next_extension(r, pos) == pos + e.bytes().len());
    assert forall|i: int| 0 <= i < e.body.len() implies #[trigger] e.body[i] == r[pos + 4 + i] by {
        assert(r[pos + (4 + i)] == all[4 + i]);
    }
    assert(r.subrange(pos + 4, next_extension(r, pos)) == e.body);
    assert(r.subrange(next_extension(r, pos), end) == rest) by {
        assert forall|i: int| 0 <= i < rest.len() implies r.subrange(
            next_extension(r, pos),
            end,
        )[i] == rest[i] by {
            assert(r[pos + (e.bytes().len() + i)] == all[e.bytes().len() + i]);
        }
    }
    if e.body.len() >= 5 {
        assert(e.body[0] == r[pos + 4 + 0]);
        assert(e.body[1] == r[pos + 4 + 1]);
        assert(e.body[2] == r[pos + 4 + 2]);
        assert(e.body[3] == r[pos + 4 + 3]);
        assert(e.body[4] == r[pos + 4 + 4]);
    }
    assert(be16(r, pos) == e.kind.0 * 256 + e.kind.1);
}

proof fn lemma_walk_to_name(
    r: Seq<u8>,
    pos: int,
    end: int,
    listed: bool,
    before: Seq<Extension>,
    named: Extension,
    after: Seq<u8>,
)
    requires
        0 <= pos <= end <= r.len(),
        end - pos <= 0xffff,
        r.subrange(pos, end) == laid_out(before) + named.bytes() + after,
        forall|i: int| 0 <= i < before.len() ==> !#[trigger] before[i].gives_name(listed),
        named.gives_name(listed),
    ensures
        sni_extension(r, pos, end, listed) == Some(pos + laid_out(before).len()),
    decreases before.len(),
{
    if before.len() == 0 {
        assert(laid_out(before) + named.bytes() + after == named.bytes() + after);
        lemma_extension(r, pos, end, named, after, listed);
    } else {
        let rest = laid_out(before.skip(1)) + named.bytes() + after;
        assert(laid_out(before) + named.bytes() + after == before[0].bytes() + rest);
        lemma_extension(r, pos, end, before[0], rest, listed);
        let next = next_extension(r, pos);
        assert forall|i: int| 0 <= i < before.skip(1).len() implies !#[trigger] before.skip(
            1,
        )[i].gives_name(listed) by {
            assert(before.skip(1)[i] == before[i + 1]);
        }
        lemma_walk_to_name(r, next, end, listed, before.skip(1), named, after);
        assert(!before[0].gives_name(listed));
    }
}

proof fn lemma_walk_without_name(
    r: Seq<u8>,
    pos: int,
    end: int,
    listed: bool,
    before: Seq<Extension>,
    after: Seq<u8>,
)
    requires
        0 <= pos <= end <= r.len(),
        end - pos <= 0xffff,
        r.subrange(pos, end) == laid_out(before) + after,
        forall|i: int| 0 <= i < before.len() ==> !#[trigger] before[i].gives_name(listed),
        starts_no_extension(after),
    ensures
        sni_extension(r, pos, end, listed) is None,
    decreases before.len(),
{
    if before.len() == 0 {
        assert(laid_out(before) + after == after);
        if pos + 4 <= end {
            assert(after[2] == r[pos + 2] && after[3] == r[pos + 3]);
        }
    } else {
        let rest = laid_out(before.skip(1)) + after;
        assert(laid_out(before) + after == before[0].bytes() + rest);
        lemma_extension(r, pos, end, before[0], rest, listed);
        let next = next_extension(r, pos);
        assert forall|i: int| 0 <= i < before.skip(1).len() implies !#[trigger] before.skip(
            1,
        )[i].gives_name(listed) by {
            assert(before.skip(1)[i] == before[i + 1]);
        }
        lemma_walk_without_name(r, next, end, listed, before.skip(1), after);
        assert(!before[0].gives_name(listed));
    }
}

// Laws on reading.

/// The server name that is read out of a record is the one in the first of its extensions that
/// gives one, wherever it stands among them, whatever the other parts of the record hold, and
/// however long they are. A name that is no UTF-8 is none.
pub proof fn first_given_name_is_read(
    h: Hello,
    before: Seq<Extension>,
    list: int,
    name: Seq<u8>,
    rest: Seq<u8>,
    after: Seq<u8>,
)
    requires
        h.fits(),
        h.is_tls(),
        0 <= list <= 0xffff,
        name.len() <= 0xffff,
        forall|i: int| 0 <= i < before.len() ==> !#[trigger] before[i].gives_name(false),
        h.extensions == laid_out(before) + server_name_extension(list, name, rest).bytes() + after,
    ensures
        server_name(h.bytes()) == if valid_utf8(name) {
            Some(decode_utf8(name))
        } else {
            None
        },
{
    let r = h.bytes();
    let named = server_name_extension(list, name, rest);
    lemma_layout(h);
    lemma_entry(list, name, rest);
    let start = extensions_start(r);
    let end = extensions_end(r);
    lemma_head(h);
    lemma_walk_to_name(r, start, end, false, before, named, after);
    let p = start + laid_out(before).len();
    lemma_name_at(r, start, end, before, list, name, rest, after);
    assert(read_extension(r) == Some(p));
}

/// No server name is read out of a record with no extension that gives one.
pub proof fn no_name_is_read_where_none_is_given(h: Hello, before: Seq<Extension>, after: Seq<u8>)
    requires
        h.fits(),
        forall|i: int| 0 <= i < before.len() ==> !#[trigger] before[i].gives_name(false),
        starts_no_extension(after),
        h.extensions == laid_out(before) + after,
    ensures
        server_name(h.bytes()) is None,
{
    let r = h.bytes();
    lemma_layout(h);
    lemma_walk_without_name(r, extensions_start(r), extensions_end(r), false, before, after);
}

proof fn lemma_head(h: Hello)
    requires
        h.fits(),
    ensures
        client_hello_prefix(h.bytes()) == h.is_tls(),
        h.bytes()[0] == h.head[0],
        be16(h.bytes(), 3) == h.head[3] * 256 + h.head[4],
{
    lemma_layout(h);
    let r = h.bytes();
    assert forall|i: int| 0 <= i < 5 implies #[trigger] r[i] == h.head[i] by {
        assert(r.take(5)[i] == r[i]);
    }
}

proof fn lemma_entry(list: int, name: Seq<u8>, rest: Seq<u8>)
    requires
        0 <= list <= 0xffff,
        name.len() <= 0xffff,
    ensures
        ({
            let body = name_entry(list, name, rest);
            let e = server_name_extension(list, name, rest);
            &&& body.len() == 5 + name.len() + rest.len()
            &&& body[0] * 256 + body[1] == list
            &&& body[2] == 0
            &&& body[3] * 256 + body[4] == name.len()
            &&& body.subrange(5, (5 + name.len()) as int) == name
            &&& e.gives_name(false)
            &&& e.gives_name(true) <==> list >= 3
        }),
{
    lemma_two(list);
    lemma_two(name.len() as int);
    let body = name_entry(list, name, rest);
    assert(body[0] == two(list)[0] && body[1] == two(list)[1]);
    assert(body[3] == two(name.len() as int)[0] && body[4] == two(name.len() as int)[1]);
    assert(body.subrange(5, (5 + name.len()) as int) == name);
}

/// The name in an extension behind others is found there.
proof fn lemma_name_at(
    r: Seq<u8>,
    pos: int,
    end: int,
    before: Seq<Extension>,
    list: int,
    name: Seq<u8>,
    rest: Seq<u8>,
    after: Seq<u8>,
)
    requires
        0 <= pos <= end <= r.len(),
        end - pos <= 0xffff,
        0 <= list <= 0xffff,
        name.len() <= 0xffff,
        r.subrange(pos, end) == laid_out(before) + server_name_extension(list, name, rest).bytes() + after,
    ensures
        ({
            let p = pos + laid_out(before).len();
            &&& host_name(r, p) == name
            &&& be16(r, p + 7) == name.len()
            &&& be16(r, p + 4) == list
            &&& be16(r, p + 2) == 5 + name.len() + rest.len()
            &&& p + 9 + name.len() + rest.len() + after.len() == end
        }),
{
    let named = server_name_extension(list, name, rest);
    let front = laid_out(before);
    let p = pos + front.len();
    lemma_entry(list, name, rest);
    let part = r.subrange(pos, end);
    assert(part == front + named.bytes() + after);
    assert(r.subrange(p, end) == named.bytes() + after) by {
        assert(r.subrange(p, end) == part.skip(front.len() as int));
        assert(part.skip(front.len() as int) == named.bytes() + after);
    }
    lemma_extension(r, p, end, named, after, false);
    let body = r.subrange(p + 4, next_extension(r, p));
    assert(body == named.body);
    assert(body[0] == r[p + 4] && body[1] == r[p + 5] && body[3] == r[p + 7] && body[4] == r[p
        + 8]);
    assert(host_name(r, p) == body.subrange(5, (5 + name.len()) as int));
}

// Laws on replacing.

/// A record around its server name, with the lengths that it states: the head, the length of the message, what stands before the
/// extension for the name, the lengths of that and of the name list, the name, and what stands
/// behind it.
#[verifier::opaque]
pub open spec fn around(
    head: Seq<u8>,
    len: int,
    front: Seq<u8>,
    size: int,
    list: int,
    name: Seq<u8>,
    tail: Seq<u8>,
) -> Seq<u8> {
    head + seq![1u8] + three(len) + front + seq![0u8, 0u8] + two(size) + two(list) + seq![0u8]
        + two(name.len() as int) + name + tail
}

#[verifier::spinoff_prover]
#[verifier::rlimit(40)]
proof fn lemma_around(
    head: Seq<u8>,
    len: int,
    front: Seq<u8>,
    size: int,
    list: int,
    name: Seq<u8>,
    tail: Seq<u8>,
)
    requires
        head.len() == 5,
        0 <= len <= 0xff_ffff,
        0 <= size <= 0xffff,
        0 <= list <= 0xffff,
        name.len() <= 0xffff,
    ensures
        ({
            let r = around(head, len, front, size, list, name, tail);
            let p = 9 + front.len() as int;
            &&& r.len() == p + 9 + name.len() + tail.len()
            &&& r.take(5) == head
            &&& r[5] == 1
            &&& be24(r, 6) == len
            &&& r.subrange(9, p) == front
            &&& r[p] == 0 && r[p + 1] == 0
            &&& be16(r, p + 2) == size
            &&& be16(r, p + 4) == list
            &&& r[p + 6] == 0
            &&& be16(r, p + 7) == name.len()
            &&& host_name(r, p) == name
            &&& r.skip(p + 9 + name.len()) == tail
        }),
{
    reveal(around);
    let r = around(head, len, front, size, list, name, tail);
    let p = 9 + front.len() as int;
    lemma_three(len);
    lemma_two(size);
    lemma_two(list);
    lemma_two(name.len() as int);
    let a1 = head + seq![1u8];
    let a2 = a1 + three(len);
    let a3 = a2 + front;
    let a4 = a3 + seq![0u8, 0u8];
    let a5 = a4 + two(size);
    let a6 = a5 + two(list);
    let a7 = a6 + seq![0u8];
    let a8 = a7 + two(name.len() as int);
    let a9 = a8 + name;
    assert(r == a9 + tail);
    lemma_start(r, a9, tail);
    lemma_piece(r, a8, name);
    lemma_part(r, a7, two(name.len() as int));
    lemma_part(r, a6, seq![0u8]);
    lemma_part(r, a5, two(list));
    lemma_part(r, a4, two(size));
    lemma_part(r, a3, seq![0u8, 0u8]);
    lemma_piece(r, a2, front);
    lemma_part(r, a1, three(len));
    lemma_part(r, head, seq![1u8]);
    lemma_take(r, head);
    assert(r[5] == seq![1u8][0]);
    assert(r[6] == three(len)[0] && r[7] == three(len)[1] && r[8] == three(len)[2]);
    assert(r[p] == seq![0u8, 0u8][0] && r[p + 1] == seq![0u8, 0u8][1]);
    assert(r[p + 2] == two(size)[0] && r[p + 3] == two(size)[1]);
    assert(r[p + 4] == two(list)[0] && r[p + 5] == two(list)[1]);
    assert(r[p + 6] == seq![0u8][0]);
    assert(r[p + 7] == two(name.len() as int)[0] && r[p + 8] == two(name.len() as int)[1]);
    assert(r.skip(p + 9 + name.len()) == tail);
}

/// The same number in two bytes is the same two bytes.
proof fn lemma_same16(n: Seq<u8>, m: Seq<u8>, at: int)
    requires
        be16(n, at) == be16(m, at),
    ensures
        n[at] == m[at],
        n[at + 1] == m[at + 1],
{
}

/// A record is renamed in one way only.
#[verifier::spinoff_prover]
#[verifier::rlimit(40)]
proof fn lemma_renamed_once(r: Seq<u8>, n: Seq<u8>, m: Seq<u8>, p: int, host: Seq<u8>)
    requires
        9 <= p,
        p + 9 + be16(r, p + 7) <= r.len(),
        renamed(r, n, p, host),
        renamed(r, m, p, host),
    ensures
        n == m,
{
    let k = p + 9 + host.len();
    lemma_same16(n, m, 3);
    lemma_same16(n, m, p + 2);
    lemma_same16(n, m, p + 4);
    lemma_same16(n, m, p + 7);
    assert(n[6] == m[6] && n[7] == m[7] && n[8] == m[8]);
    assert(n.take(3) == m.take(3));
    assert(n.subrange(9, p + 2) == m.subrange(9, p + 2));
    assert(host_name(n, p) == host_name(m, p));
    assert(n.skip(k) == m.skip(k));
    lemma_same_pieces(n, m, p, k);
}

proof fn lemma_same_pieces(n: Seq<u8>, m: Seq<u8>, p: int, k: int)
    requires
        9 <= p,
        p + 9 <= k <= n.len(),
        n.len() == m.len(),
        n.take(3) == m.take(3),
        n[3] == m[3] && n[4] == m[4] && n[5] == m[5] && n[6] == m[6] && n[7] == m[7] && n[8]
            == m[8],
        n.subrange(9, p + 2) == m.subrange(9, p + 2),
        n[p + 2] == m[p + 2] && n[p + 3] == m[p + 3] && n[p + 4] == m[p + 4] && n[p + 5] == m[p
            + 5] && n[p + 6] == m[p + 6] && n[p + 7] == m[p + 7] && n[p + 8] == m[p + 8],
        n.subrange(p + 9, k) == m.subrange(p + 9, k),
        n.skip(k) == m.skip(k),
    ensures
        n == m,
{
    assert forall|i: int| 0 <= i < n.len() implies #[trigger] n[i] == m[i] by {
        if i < 3 {
            assert(n.take(3)[i] == n[i] && m.take(3)[i] == m[i]);
        } else if i < 9 {
            assert(i == 3 || i == 4 || i == 5 || i == 6 || i == 7 || i == 8);
        } else if i < p + 2 {
            assert(n.subrange(9, p + 2)[i - 9] == n[i] && m.subrange(9, p + 2)[i - 9] == m[i]);
        } else if i < p + 9 {
            assert(i == p + 2 || i == p + 3 || i == p + 4 || i == p + 5 || i == p + 6 || i == p + 7
                || i == p + 8);
        } else if i < k {
            assert(n.subrange(p + 9, k)[i - p - 9] == n[i] && m.subrange(p + 9, k)[i - p - 9]
                == m[i]);
        } else {
            assert(n.skip(k)[i - k] == n[i] && m.skip(k)[i - k] == m[i]);
        }
    }
}

/// Whether a number can be written in two bytes.
pub open spec fn fits_two(n: int) -> bool {
    0 <= n <= 0xffff
}

/// Replacing the server name of a record replaces the one in the first of its extensions that gives
/// a listed name, wherever it stands among them, and however long the other parts are. The record
/// is then put together like before, but for the name: its length, and those of the name list, of
/// the extension, of the message and of the record, are those of the new name, and only the length
/// of all extensions is still what it was. The replacement fails where one of the lengths does not
/// fit, or where the new name is over 255 bytes, which leaves the record as it is.
#[verifier::spinoff_prover]
#[verifier::rlimit(60)]
pub proof fn first_listed_name_is_replaced(
    h: Hello,
    before: Seq<Extension>,
    list: int,
    name: Seq<u8>,
    rest: Seq<u8>,
    after: Seq<u8>,
    host: Seq<u8>,
)
    requires
        h.fits(),
        h.head[0] == 0x16,
        3 <= list <= 0xffff,
        name.len() <= 0xffff,
        forall|i: int| 0 <= i < before.len() ==> !#[trigger] before[i].gives_name(true),
        h.extensions == laid_out(before) + server_name_extension(list, name, rest).bytes() + after,
    ensures
        ({
            let by = host.len() - name.len();
            let size = 5 + host.len() + rest.len();
            let message = h.message().len() + by;
            let record = h.head[3] * 256 + h.head[4] + by;
            let result = rewritten(h.bytes(), host);
            let extensions = laid_out(before) + server_name_extension(
                list + by,
                host,
                rest,
            ).bytes() + after;
            if host.len() > 255 {
                result == (h.bytes(), Err::<(), TlsError>(TlsError::HostTooLong))
            } else if !fits_two(list + by) || !fits_two(size as int) {
                result.1 == Err::<(), TlsError>(TlsError::LengthExceedsU16)
            } else if message > 0xff_ffff {
                result.1 == Err::<(), TlsError>(TlsError::HandshakeLengthExceedsU24)
            } else if !fits_two(record) {
                result.1 == Err::<(), TlsError>(TlsError::LengthExceedsU16)
            } else {
                result == (
                    (Hello { head: h.head.take(3) + two(record), extensions, ..h }).bytes(),
                    Ok::<(), TlsError>(()),
                )
            }
        }),
{
    let r = h.bytes();
    let p = 9 + h.front().len() as int + laid_out(before).len();
    lemma_listed_name(h, before, list, name, rest, after);
    lemma_lengths(r, p, host);
    if host.len() <= 255 && rewritten(r, host).1 is Ok {
        let by = host.len() - name.len();
        let record = h.head[3] * 256 + h.head[4] + by;
        let extensions = laid_out(before) + server_name_extension(list + by, host, rest).bytes()
            + after;
        let n = Hello { head: h.head.take(3) + two(record), extensions, ..h };
        lemma_replaced_record(h, n, before, list, name, rest, after, host);
    }
}

#[verifier::spinoff_prover]
#[verifier::rlimit(40)]
proof fn lemma_replaced_record(
    h: Hello,
    n: Hello,
    before: Seq<Extension>,
    list: int,
    name: Seq<u8>,
    rest: Seq<u8>,
    after: Seq<u8>,
    host: Seq<u8>,
)
    requires
        h.fits(),
        h.head[0] == 0x16,
        3 <= list <= 0xffff,
        name.len() <= 0xffff,
        forall|i: int| 0 <= i < before.len() ==> !#[trigger] before[i].gives_name(true),
        host.len() <= 0xff,
        fits_two(list + host.len() - name.len()),
        fits_two((5 + host.len() + rest.len()) as int),
        h.message().len() + host.len() - name.len() <= 0xff_ffff,
        fits_two(h.head[3] * 256 + h.head[4] + host.len() - name.len()),
        h.extensions == laid_out(before) + server_name_extension(list, name, rest).bytes() + after,
        n.extensions == laid_out(before) + server_name_extension(
            list + host.len() - name.len(),
            host,
            rest,
        ).bytes() + after,
        n.head == h.head.take(3) + two(h.head[3] * 256 + h.head[4] + host.len() - name.len()),
        n.front() == h.front(),
        n.more == h.more,
        n.beyond == h.beyond,
        rewritten(h.bytes(), host).1 is Ok,
    ensures
        rewritten(h.bytes(), host).0 == n.bytes(),
{
    let r = h.bytes();
    let p = 9 + h.front().len() as int + laid_out(before).len();
    lemma_listed_name(h, before, list, name, rest, after);
    assert(h.extensions.len() == laid_out(before).len() + 4 + 5 + name.len() + rest.len()
        + after.len());
    rewriting_changes_only_name_and_lengths(r, host, p);
    lemma_put_together_anew(h, n, before, list, name, rest, after, host);
    lemma_renamed_once(r, rewritten(r, host).0, n.bytes(), p, host);
}

/// Where the listed name of a record stands, and which lengths stand around it.
#[verifier::spinoff_prover]
#[verifier::rlimit(40)]
proof fn lemma_listed_name(
    h: Hello,
    before: Seq<Extension>,
    list: int,
    name: Seq<u8>,
    rest: Seq<u8>,
    after: Seq<u8>,
)
    requires
        h.fits(),
        h.head[0] == 0x16,
        3 <= list <= 0xffff,
        name.len() <= 0xffff,
        forall|i: int| 0 <= i < before.len() ==> !#[trigger] before[i].gives_name(true),
        h.extensions == laid_out(before) + server_name_extension(list, name, rest).bytes() + after,
    ensures
        ({
            let r = h.bytes();
            let p = 9 + h.front().len() as int + laid_out(before).len();
            &&& rewritable(r)
            &&& rewrite_extension(r) == Some(p)
            &&& be16(r, 3) == h.head[3] * 256 + h.head[4]
            &&& be24(r, 6) == h.message().len()
            &&& be16(r, p + 2) == 5 + name.len() + rest.len()
            &&& be16(r, p + 4) == list
            &&& be16(r, p + 7) == name.len()
            &&& host_name(r, p) == name
            &&& p + 9 + name.len() <= r.len()
        }),
{
    let r = h.bytes();
    lemma_layout(h);
    lemma_head(h);
    lemma_entry(list, name, rest);
    let start = extensions_start(r);
    let end = extensions_end(r);
    let named = server_name_extension(list, name, rest);
    lemma_walk_to_name(r, start, end, true, before, named, after);
    lemma_name_at(r, start, end, before, list, name, rest, after);
}

/// Whether a replacement succeeds depends on the lengths alone.
#[verifier::spinoff_prover]
#[verifier::rlimit(40)]
proof fn lemma_lengths(r: Seq<u8>, p: int, host: Seq<u8>)
    requires
        rewritable(r),
        rewrite_extension(r) == Some(p),
        5 + be16(r, p + 7) <= be16(r, p + 2),
    ensures
        ({
            let by = host.len() - be16(r, p + 7);
            if host.len() > 255 {
                rewritten(r, host) == (r, Err::<(), TlsError>(TlsError::HostTooLong))
            } else {
                rewritten(r, host).1 == if !fits_two(be16(r, p + 4) + by) || !fits_two(
                    be16(r, p + 2) + by,
                ) {
                    Err::<(), TlsError>(TlsError::LengthExceedsU16)
                } else if be24(r, 6) + by > 0xff_ffff {
                    Err::<(), TlsError>(TlsError::HandshakeLengthExceedsU24)
                } else if !fits_two(be16(r, 3) + by) {
                    Err::<(), TlsError>(TlsError::LengthExceedsU16)
                } else {
                    Ok::<(), TlsError>(())
                }
            }
        }),
{
    if host.len() <= 255 {
        assert(rewritten(r, host) == with_name(r, p, host));
    }
}

/// A record that is put together with another name is that record renamed.
#[verifier::spinoff_prover]
#[verifier::rlimit(40)]
proof fn lemma_put_together_anew(
    h: Hello,
    n: Hello,
    before: Seq<Extension>,
    list: int,
    name: Seq<u8>,
    rest: Seq<u8>,
    after: Seq<u8>,
    host: Seq<u8>,
)
    requires
        h.fits(),
        3 <= list <= 0xffff,
        name.len() <= 0xffff,
        host.len() <= 0xff,
        5 + name.len() + rest.len() <= 0xffff,
        fits_two(list + host.len() - name.len()),
        fits_two((5 + host.len() + rest.len()) as int),
        h.message().len() + host.len() - name.len() <= 0xff_ffff,
        fits_two(h.head[3] * 256 + h.head[4] + host.len() - name.len()),
        h.extensions == laid_out(before) + server_name_extension(list, name, rest).bytes() + after,
        n.extensions == laid_out(before) + server_name_extension(
            list + host.len() - name.len(),
            host,
            rest,
        ).bytes() + after,
        n.head == h.head.take(3) + two(h.head[3] * 256 + h.head[4] + host.len() - name.len()),
        n.front() == h.front(),
        n.more == h.more,
        n.beyond == h.beyond,
    ensures
        renamed(
            h.bytes(),
            n.bytes(),
            (9 + h.front().len() + laid_out(before).len()) as int,
            host,
        ),
{
    let by = host.len() - name.len();
    let record = h.head[3] * 256 + h.head[4] + by;
    let front = h.front() + laid_out(before);
    let tail = rest + after + h.more + h.beyond;
    let size = (5 + name.len() + rest.len()) as int;
    lemma_put_together(h, before, list, name, rest, after);
    lemma_put_together(n, before, list + by, host, rest, after);
    assert(h.extensions.len() == laid_out(before).len() + 4 + size + after.len());
    assert(n.extensions.len() == laid_out(before).len() + 4 + size + by + after.len());
    assert(n.message().len() == h.message().len() + by);
    lemma_around_anew(
        h.head,
        n.head,
        h.message().len() as int,
        front,
        size,
        list,
        name,
        host,
        tail,
        by,
        record,
    );
}

#[verifier::spinoff_prover]
#[verifier::rlimit(40)]
proof fn lemma_around_anew(
    head: Seq<u8>,
    new_head: Seq<u8>,
    len: int,
    front: Seq<u8>,
    size: int,
    list: int,
    name: Seq<u8>,
    host: Seq<u8>,
    tail: Seq<u8>,
    by: int,
    record: int,
)
    requires
        head.len() == 5,
        fits_two(record),
        record == head[3] * 256 + head[4] + by,
        new_head == head.take(3) + two(record),
        by == host.len() - name.len(),
        name.len() <= 0xffff,
        host.len() <= 0xff,
        0 <= len <= 0xff_ffff,
        0 <= len + by <= 0xff_ffff,
        fits_two(size),
        fits_two(size + by),
        fits_two(list),
        fits_two(list + by),
    ensures
        renamed(
            around(head, len, front, size, list, name, tail),
            around(new_head, len + by, front, size + by, list + by, host, tail),
            9 + front.len() as int,
            host,
        ),
{
    let r = around(head, len, front, size, list, name, tail);
    let m = around(new_head, len + by, front, size + by, list + by, host, tail);
    let p = 9 + front.len() as int;
    lemma_two(record);
    lemma_around(head, len, front, size, list, name, tail);
    lemma_around(new_head, len + by, front, size + by, list + by, host, tail);
    assert(r.take(3) == r.take(5).take(3));
    assert(m.take(3) == m.take(5).take(3));
    assert(new_head.take(3) == head.take(3));
    assert(r[3] == r.take(5)[3] && r[4] == r.take(5)[4]);
    assert(m[3] == m.take(5)[3] && m[4] == m.take(5)[4]);
    assert(new_head[3] == two(record)[0] && new_head[4] == two(record)[1]);
    lemma_renamed(r, m, p, front, host, name, by, record, tail);
}

#[verifier::spinoff_prover]
#[verifier::rlimit(40)]
proof fn lemma_renamed(
    r: Seq<u8>,
    m: Seq<u8>,
    p: int,
    front: Seq<u8>,
    host: Seq<u8>,
    name: Seq<u8>,
    by: int,
    record: int,
    tail: Seq<u8>,
)
    requires
        p == 9 + front.len(),
        by == host.len() - name.len(),
        r.len() == p + 9 + name.len() + tail.len(),
        m.len() == p + 9 + host.len() + tail.len(),
        m.take(3) == r.take(3),
        be16(r, 3) + by == record,
        be16(m, 3) == record,
        r[5] == 1 && m[5] == 1,
        be24(m, 6) == be24(r, 6) + by,
        r.subrange(9, p) == front,
        m.subrange(9, p) == front,
        r[p] == 0 && r[p + 1] == 0 && m[p] == 0 && m[p + 1] == 0,
        be16(m, p + 2) == be16(r, p + 2) + by,
        be16(m, p + 4) == be16(r, p + 4) + by,
        r[p + 6] == 0 && m[p + 6] == 0,
        be16(r, p + 7) == name.len(),
        be16(m, p + 7) == host.len(),
        host_name(m, p) == host,
        r.skip((p + 9 + name.len()) as int) == tail,
        m.skip((p + 9 + host.len()) as int) == tail,
    ensures
        renamed(r, m, p, host),
{
    assert(m.subrange(9, p + 2) == r.subrange(9, p + 2)) by {
        assert forall|i: int| 9 <= i < p + 2 implies #[trigger] m[i] == r[i] by {
            if i < p {
                assert(m.subrange(9, p)[i - 9] == r.subrange(9, p)[i - 9]);
            }
        }
    }
}

/// A record with a server name, as what stands around it.
#[verifier::spinoff_prover]
#[verifier::rlimit(40)]
proof fn lemma_put_together(
    h: Hello,
    before: Seq<Extension>,
    list: int,
    name: Seq<u8>,
    rest: Seq<u8>,
    after: Seq<u8>,
)
    requires
        h.extensions == laid_out(before) + server_name_extension(list, name, rest).bytes() + after,
    ensures
        h.bytes() == around(
            h.head,
            h.message().len() as int,
            h.front() + laid_out(before),
            (5 + name.len() + rest.len()) as int,
            list,
            name,
            rest + after + h.more + h.beyond,
        ),
{
    reveal(Hello::bytes);
    reveal(around);
    let size = 5 + name.len() + rest.len();
    let body = name_entry(list, name, rest);
    assert(body.len() == size);
    let entry = seq![0u8, 0u8] + two(size as int) + two(list) + seq![0u8] + two(name.len() as int)
        + name;
    assert(server_name_extension(list, name, rest).bytes() == entry + rest);
    let all = laid_out(before) + entry + rest + after;
    assert(h.extensions == all);
    let start = h.head + seq![1u8] + three(h.message().len() as int);
    assert(h.bytes() == start + (h.front() + all + h.more) + h.beyond);
    assert(start + (h.front() + all + h.more) + h.beyond == start + (h.front() + laid_out(before))
        + entry + (rest + after + h.more + h.beyond));
}

/// A replacement that fails for a length leaves the new name in the record, with its own length and
/// with those of the lengths around it that come before, in the order of the name list, the
/// extension, the message and the record. The length that does not fit, and those behind it, are
/// what they were.
#[verifier::spinoff_prover]
#[verifier::rlimit(60)]
pub proof fn failed_replacement_stops_at_the_length_that_does_not_fit(
    h: Hello,
    before: Seq<Extension>,
    list: int,
    name: Seq<u8>,
    rest: Seq<u8>,
    after: Seq<u8>,
    host: Seq<u8>,
)
    requires
        h.fits(),
        h.head[0] == 0x16,
        3 <= list <= 0xffff,
        name.len() <= 0xffff,
        forall|i: int| 0 <= i < before.len() ==> !#[trigger] before[i].gives_name(true),
        h.extensions == laid_out(before) + server_name_extension(list, name, rest).bytes() + after,
        host.len() <= 0xff,
    ensures
        ({
            let by = host.len() - name.len();
            let size = (5 + name.len() + rest.len()) as int;
            let len = h.message().len() as int;
            let record = h.head[3] * 256 + h.head[4] + by;
            let front = h.front() + laid_out(before);
            let tail = rest + after + h.more + h.beyond;
            let left = rewritten(h.bytes(), host).0;
            if !fits_two(list + by) {
                left == around(h.head, len, front, size, list, host, tail)
            } else if !fits_two(size + by) {
                left == around(h.head, len, front, size, list + by, host, tail)
            } else if len + by > 0xff_ffff {
                left == around(h.head, len, front, size + by, list + by, host, tail)
            } else if !fits_two(record) {
                left == around(h.head, len + by, front, size + by, list + by, host, tail)
            } else {
                left == around(
                    h.head.take(3) + two(record),
                    len + by,
                    front,
                    size + by,
                    list + by,
                    host,
                    tail,
                )
            }
        }),
{
    let r = h.bytes();
    let by = host.len() - name.len();
    let size = (5 + name.len() + rest.len()) as int;
    let len = h.message().len() as int;
    let record = h.head[3] * 256 + h.head[4] + by;
    let front = h.front() + laid_out(before);
    let tail = rest + after + h.more + h.beyond;
    let p = 9 + h.front().len() as int + laid_out(before).len();
    lemma_listed_name(h, before, list, name, rest, after);
    lemma_put_together(h, before, list, name, rest, after);
    assert(rewritten(r, host) == with_name(r, p, host));
    assert(h.extensions.len() == laid_out(before).len() + 4 + size + after.len());
    lemma_step_name(h.head, len, front, size, list, name, tail, host);
    lemma_step_list(h.head, len, front, size, list, host, tail, list + by);
    lemma_step_size(h.head, len, front, size, list + by, host, tail, size + by);
    lemma_step_message(h.head, len, front, size + by, list + by, host, tail, len + by);
    lemma_step_record(h.head, len + by, front, size + by, list + by, host, tail, record);
}

/// Replacing a part of a record between others.
proof fn lemma_replaced_part(before: Seq<u8>, part: Seq<u8>, after: Seq<u8>, new: Seq<u8>)
    ensures
        replaced(before + part + after, before.len() as int, part.len() as int, new) == before + new
            + after,
{
    let s = before + part + after;
    assert(s.take(before.len() as int) == before);
    assert(s.skip((before.len() + part.len()) as int) == after);
}

#[verifier::spinoff_prover]
#[verifier::rlimit(40)]
proof fn lemma_step_name(
    head: Seq<u8>,
    len: int,
    front: Seq<u8>,
    size: int,
    list: int,
    name: Seq<u8>,
    tail: Seq<u8>,
    host: Seq<u8>,
)
    requires
        head.len() == 5,
    ensures
        replaced(
            replaced(
                around(head, len, front, size, list, name, tail),
                18 + front.len() as int,
                name.len() as int,
                host,
            ),
            16 + front.len() as int,
            2,
            two(host.len() as int),
        ) == around(head, len, front, size, list, host, tail),
{
    reveal(around);
    let a = head + seq![1u8] + three(len) + front + seq![0u8, 0u8] + two(size) + two(list)
        + seq![0u8];
    let n0 = two(name.len() as int);
    let n1 = two(host.len() as int);
    lemma_replaced_part(a + n0, name, tail, host);
    assert(a + n0 + host + tail == a + n0 + (host + tail));
    lemma_replaced_part(a, n0, host + tail, n1);
    assert(a + n1 + (host + tail) == a + n1 + host + tail);
}

#[verifier::spinoff_prover]
#[verifier::rlimit(40)]
proof fn lemma_step_list(
    head: Seq<u8>,
    len: int,
    front: Seq<u8>,
    size: int,
    list: int,
    name: Seq<u8>,
    tail: Seq<u8>,
    new: int,
)
    requires
        head.len() == 5,
    ensures
        replaced(
            around(head, len, front, size, list, name, tail),
            13 + front.len() as int,
            2,
            two(new),
        ) == around(head, len, front, size, new, name, tail),
{
    reveal(around);
    let a = head + seq![1u8] + three(len) + front + seq![0u8, 0u8] + two(size);
    let n = two(name.len() as int);
    let b = seq![0u8] + n + name + tail;
    assert(a + two(list) + seq![0u8] + n + name + tail == a + two(list) + b);
    lemma_replaced_part(a, two(list), b, two(new));
    assert(a + two(new) + seq![0u8] + n + name + tail == a + two(new) + b);
}

#[verifier::spinoff_prover]
#[verifier::rlimit(40)]
proof fn lemma_step_size(
    head: Seq<u8>,
    len: int,
    front: Seq<u8>,
    size: int,
    list: int,
    name: Seq<u8>,
    tail: Seq<u8>,
    new: int,
)
    requires
        head.len() == 5,
    ensures
        replaced(
            around(head, len, front, size, list, name, tail),
            11 + front.len() as int,
            2,
            two(new),
        ) == around(head, len, front, new, list, name, tail),
{
    reveal(around);
    let a = head + seq![1u8] + three(len) + front + seq![0u8, 0u8];
    let n = two(name.len() as int);
    let l = two(list);
    let b = l + seq![0u8] + n + name + tail;
    assert(a + two(size) + l + seq![0u8] + n + name + tail == a + two(size) + b);
    lemma_replaced_part(a, two(size), b, two(new));
    assert(a + two(new) + l + seq![0u8] + n + name + tail == a + two(new) + b);
}

#[verifier::spinoff_prover]
#[verifier::rlimit(40)]
proof fn lemma_step_message(
    head: Seq<u8>,
    len: int,
    front: Seq<u8>,
    size: int,
    list: int,
    name: Seq<u8>,
    tail: Seq<u8>,
    new: int,
)
    requires
        head.len() == 5,
    ensures
        replaced(around(head, len, front, size, list, name, tail), 6, 3, three(new)) == around(head, new, front, size, list, name, tail),
{
    reveal(around);
    let a = head + seq![1u8];
    let z = seq![0u8, 0u8] + two(size) + two(list) + seq![0u8] + two(name.len() as int) + name
        + tail;
    let b = front + z;
    assert(around(head, len, front, size, list, name, tail) == a + three(len) + b);
    lemma_replaced_part(a, three(len), b, three(new));
    assert(around(head, new, front, size, list, name, tail) == a + three(new) + b);
}

#[verifier::spinoff_prover]
#[verifier::rlimit(40)]
proof fn lemma_step_record(
    head: Seq<u8>,
    len: int,
    front: Seq<u8>,
    size: int,
    list: int,
    name: Seq<u8>,
    tail: Seq<u8>,
    new: int,
)
    requires
        head.len() == 5,
    ensures
        replaced(around(head, len, front, size, list, name, tail), 3, 2, two(new)) == around(
            head.take(3) + two(new),
            len,
            front,
            size,
            list,
            name,
            tail,
        ),
{
    reveal(around);
    let z = seq![0u8, 0u8] + two(size) + two(list) + seq![0u8] + two(name.len() as int) + name
        + tail;
    let b = seq![1u8] + three(len) + front + z;
    assert(head == head.take(3) + head.skip(3));
    assert(around(head, len, front, size, list, name, tail) == head.take(3) + head.skip(3) + b);
    lemma_replaced_part(head.take(3), head.skip(3), b, two(new));
    assert(around(head.take(3) + two(new), len, front, size, list, name, tail) == head.take(3)
        + two(new) + b);
}

/// A record with no extension that gives a listed name is left as it is.
pub proof fn records_without_a_listed_name_are_left_alone(
    h: Hello,
    before: Seq<Extension>,
    after: Seq<u8>,
    host: Seq<u8>,
)
    requires
        h.fits(),
        forall|i: int| 0 <= i < before.len() ==> !#[trigger] before[i].gives_name(true),
        starts_no_extension(after),
        h.extensions == laid_out(before) + after,
    ensures
        rewritten(h.bytes(), host) == (
            h.bytes(),
            if h.head[0] == 0x16 && host.len() > 255 {
                Err::<(), TlsError>(TlsError::HostTooLong)
            } else {
                Ok::<(), TlsError>(())
            },
        ),
{
    let r = h.bytes();
    lemma_layout(h);
    lemma_head(h);
    lemma_walk_without_name(r, extensions_start(r), extensions_end(r), true, before, after);
}

// Laws on everything else.

/// The parts of a record.
spec fn parts_of(r: Seq<u8>) -> Hello {
    let session_end = 44 + r[43];
    let ciphers_end = compression_at(r);
    Hello {
        head: r.take(5),
        opening: r.subrange(9, 43),
        session: r.subrange(44, session_end),
        ciphers: r.subrange(session_end + 2, ciphers_end),
        compression: r.subrange(ciphers_end + 1, extensions_len_at(r)),
        stated: be16(r, extensions_len_at(r)),
        extensions: r.subrange(extensions_start(r), extensions_end(r)),
        more: r.subrange(extensions_end(r), message_end(r)),
        beyond: r.skip(message_end(r)),
    }
}

proof fn lemma_two_of(r: Seq<u8>, at: int)
    requires
        0 <= at,
        at + 2 <= r.len(),
    ensures
        two(be16(r, at)) == r.subrange(at, at + 2),
{
    assert(two(be16(r, at)) == r.subrange(at, at + 2));
}

proof fn lemma_join(r: Seq<u8>, from: int, mid: int, to: int)
    requires
        0 <= from <= mid <= to <= r.len(),
    ensures
        r.subrange(from, mid) + r.subrange(mid, to) == r.subrange(from, to),
{
    assert(r.subrange(from, mid) + r.subrange(mid, to) == r.subrange(from, to));
}

#[verifier::spinoff_prover]
#[verifier::rlimit(40)]
proof fn lemma_parts(r: Seq<u8>)
    requires
        has_extensions(r),
    ensures
        parts_of(r).fits(),
        parts_of(r).head == r.take(5),
        parts_of(r).bytes() == r,
{
    reveal(Hello::bytes);
    let h = parts_of(r);
    let c = ciphers_at(r);
    let m = compression_at(r);
    let l = extensions_len_at(r);
    let start = extensions_start(r);
    let end = extensions_end(r);
    let stop = message_end(r);
    lemma_two_of(r, c);
    lemma_two_of(r, l);
    assert(seq![h.session.len() as u8] == r.subrange(43, 44));
    assert(seq![h.compression.len() as u8] == r.subrange(m, m + 1));
    lemma_join(r, 9, 43, 44);
    lemma_join(r, 9, 44, c);
    lemma_join(r, 9, c, c + 2);
    lemma_join(r, 9, c + 2, m);
    lemma_join(r, 9, m, m + 1);
    lemma_join(r, 9, m + 1, l);
    lemma_join(r, 9, l, start);
    assert(h.front() == r.subrange(9, start));
    lemma_join(r, 9, start, end);
    lemma_join(r, 9, end, stop);
    assert(h.message() == r.subrange(9, stop));
    assert(three(be24(r, 6)) == r.subrange(6, 9));
    assert(seq![1u8] == r.subrange(5, 6));
    assert(h.head == r.subrange(0, 5));
    lemma_join(r, 0, 5, 6);
    lemma_join(r, 0, 6, 9);
    lemma_join(r, 0, 9, stop);
    assert(h.beyond == r.subrange(stop, r.len() as int));
    lemma_join(r, 0, stop, r.len() as int);
    assert(r.subrange(0, r.len() as int) == r);
}

/// A server name is read out of nothing but a TLS record with a ClientHello whose parts fit their
/// lengths.
pub proof fn names_are_read_out_of_hellos_alone(r: Seq<u8>)
    ensures
        server_name(r) is Some ==> exists|h: Hello| #[trigger]
            h.bytes() == r && h.fits() && h.is_tls(),
{
    if server_name(r) is Some {
        let h = parts_of(r);
        lemma_parts(r);
        lemma_head(h);
        assert(h.bytes() == r && h.fits() && h.is_tls());
    }
}

/// Nothing but a record with a ClientHello whose parts fit their lengths is changed, refused or
/// reported.
pub proof fn names_are_replaced_in_hellos_alone(r: Seq<u8>, host: Seq<u8>, text: Seq<char>)
    ensures
        rewritten(r, host) != (r, Ok::<(), TlsError>(())) || rewrite_report(r, text) is Some
            ==> exists|h: Hello| #[trigger] h.bytes() == r && h.fits() && h.head[0] == 0x16,
{
    if rewritable(r) {
        let h = parts_of(r);
        lemma_parts(r);
        lemma_head(h);
        assert(h.bytes() == r && h.fits() && h.head[0] == 0x16);
    }
}

/// What is reported of a replacement names the host that was there and the new one.
pub proof fn replaced_name_is_reported(
    h: Hello,
    before: Seq<Extension>,
    list: int,
    name: Seq<u8>,
    rest: Seq<u8>,
    after: Seq<u8>,
    host: Seq<char>,
)
    requires
        h.fits(),
        h.head[0] == 0x16,
        3 <= list <= 0xffff,
        name.len() <= 0xffff,
        forall|i: int| 0 <= i < before.len() ==> !#[trigger] before[i].gives_name(true),
        h.extensions == laid_out(before) + server_name_extension(list, name, rest).bytes() + after,
    ensures
        rewrite_report(h.bytes(), host) == Some(
            "game tls SNI rewrite "@ + utf8_lossy(name) + " -> "@ + host,
        ),
{
    lemma_listed_name(h, before, list, name, rest, after);
}

/// It is reported where there is no name to be replaced.
pub proof fn missing_name_is_reported(
    h: Hello,
    before: Seq<Extension>,
    after: Seq<u8>,
    host: Seq<char>,
)
    requires
        h.fits(),
        h.head[0] == 0x16,
        forall|i: int| 0 <= i < before.len() ==> !#[trigger] before[i].gives_name(true),
        starts_no_extension(after),
        h.extensions == laid_out(before) + after,
    ensures
        rewrite_report(h.bytes(), host) == Some(
            "game tls SNI not present; private TLS endpoint selected"@,
        ),
{
    let r = h.bytes();
    lemma_layout(h);
    lemma_head(h);
    lemma_walk_without_name(r, extensions_start(r), extensions_end(r), true, before, after);
}

}
