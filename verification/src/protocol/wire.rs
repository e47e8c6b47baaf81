//! Layout of the messages of the protocol: how each is written, how bytes are read, and
//! that what is written is read back.

use vstd::prelude::*;

verus! {

/// The bytes of an integer, least significant first.
pub open spec fn le_bytes(n: nat, count: nat) -> Seq<u8>
    decreases count,
{
    if count == 0 {
        Seq::empty()
    } else {
        seq![(n % 256) as u8] + le_bytes(n / 256, (count - 1) as nat)
    }
}

/// The integer that bytes hold, least significant first.
pub open spec fn le_value(bytes: Seq<u8>) -> nat
    decreases bytes.len(),
{
    if bytes.len() == 0 {
        0
    } else {
        bytes[0] as nat + 256 * le_value(bytes.skip(1))
    }
}

/// An integer of variable length: one byte up to 250, else a marker followed by
/// two, four or eight little-endian bytes.
pub open spec fn varint(n: nat) -> Seq<u8> {
    if n <= 250 {
        seq![n as u8]
    } else if n < 0x1_0000 {
        seq![251u8] + le_bytes(n, 2)
    } else if n < 0x1_0000_0000 {
        seq![252u8] + le_bytes(n, 4)
    } else {
        seq![253u8] + le_bytes(n, 8)
    }
}

/// The integer in the bytes that follow a marker, and what comes after them.
pub open spec fn read_marked(bytes: Seq<u8>, count: int) -> Option<(nat, Seq<u8>)> {
    if bytes.len() > count {
        Some((le_value(bytes.subrange(1, 1 + count)), bytes.skip(1 + count)))
    } else {
        None
    }
}

/// The integer of variable length that bytes begin with, and what comes after it. It may be
/// written in more bytes than it needs.
pub open spec fn read_int(bytes: Seq<u8>) -> Option<(nat, Seq<u8>)> {
    if bytes.len() == 0 {
        None
    } else if bytes[0] <= 250 {
        Some((bytes[0] as nat, bytes.skip(1)))
    } else if bytes[0] == 251 {
        read_marked(bytes, 2)
    } else if bytes[0] == 252 {
        read_marked(bytes, 4)
    } else if bytes[0] == 253 {
        read_marked(bytes, 8)
    } else {
        None
    }
}

/// The variant number that bytes begin with, and what comes after it.
pub open spec fn read_variant(bytes: Seq<u8>) -> Option<(u32, Seq<u8>)> {
    match read_int(bytes) {
        Some((n, rest)) => if n <= u32::MAX {
            Some((n as u32, rest))
        } else {
            None
        },
        None => None,
    }
}

/// The bytes that bytes begin with, behind their number, and what comes after them.
pub open spec fn read_block(bytes: Seq<u8>) -> Option<(Seq<u8>, Seq<u8>)> {
    match read_int(bytes) {
        Some((n, rest)) => if n <= rest.len() {
            Some((rest.take(n as int), rest.skip(n as int)))
        } else {
            None
        },
        None => None,
    }
}

/// A text: the number of its UTF-8 bytes, then these bytes.
pub open spec fn text_wire(s: Seq<char>) -> Seq<u8> {
    let utf8 = vstd::utf8::encode_utf8(s);
    varint(utf8.len()) + utf8
}

/// The text that bytes begin with, and what comes after it.
pub open spec fn read_text(bytes: Seq<u8>) -> Option<(Seq<char>, Seq<u8>)> {
    match read_block(bytes) {
        Some((utf8, rest)) => if vstd::utf8::valid_utf8(utf8) {
            Some((vstd::utf8::decode_utf8(utf8), rest))
        } else {
            None
        },
        None => None,
    }
}

/// Texts one after the other.
pub open spec fn texts_wire(v: Seq<Seq<char>>) -> Seq<u8>
    decreases v.len(),
{
    if v.len() == 0 {
        Seq::empty()
    } else {
        text_wire(v[0]) + texts_wire(v.skip(1))
    }
}

/// The texts that bytes begin with, and what comes after them.
pub open spec fn read_texts(bytes: Seq<u8>, count: nat) -> Option<(Seq<Seq<char>>, Seq<u8>)>
    decreases count,
{
    if count == 0 {
        Some((Seq::empty(), bytes))
    } else {
        match read_text(bytes) {
            Some((first, rest)) => match read_texts(rest, (count - 1) as nat) {
                Some((others, tail)) => Some((seq![first] + others, tail)),
                None => None,
            },
            None => None,
        }
    }
}

/// Layout of a variant that holds bytes and an integer.
pub open spec fn answer_wire(tag: u32, signature: Seq<u8>, timestamp: u64) -> Seq<u8> {
    varint(tag as nat) + varint(signature.len()) + signature + varint(timestamp as nat)
}

/// Layout of a variant that holds a nonce and an integer.
pub open spec fn challenge_wire(tag: u32, nonce: Seq<u8>, timestamp: u64) -> Seq<u8> {
    varint(tag as nat) + nonce + varint(timestamp as nat)
}

/// Layout of a variant that holds a list of texts.
pub open spec fn granted_wire(tag: u32, roles: Seq<Seq<char>>) -> Seq<u8> {
    varint(tag as nat) + varint(roles.len()) + texts_wire(roles)
}

/// Layout of a tunnel header.
pub open spec fn header_wire(service: Seq<char>, sha: Seq<u8>) -> Seq<u8> {
    text_wire(service) + sha
}

/// The integer that bytes are, with nothing after it.
pub open spec fn last_int(bytes: Seq<u8>) -> Option<u64> {
    match read_int(bytes) {
        Some((n, rest)) => if rest.len() == 0 {
            Some(n as u64)
        } else {
            None
        },
        None => None,
    }
}

/// The lone variant number that bytes hold.
pub open spec fn tag_of(bytes: Seq<u8>) -> Option<u32> {
    match read_variant(bytes) {
        Some((tag, rest)) => if rest.len() == 0 {
            Some(tag)
        } else {
            None
        },
        None => None,
    }
}

/// The variant number, the bytes and the integer that bytes hold.
pub open spec fn answer_of(bytes: Seq<u8>) -> Option<(u32, Seq<u8>, u64)> {
    match read_variant(bytes) {
        Some((tag, rest)) => match read_block(rest) {
            Some((signature, rest)) => match last_int(rest) {
                Some(timestamp) => Some((tag, signature, timestamp)),
                None => None,
            },
            None => None,
        },
        None => None,
    }
}

/// The variant number, the nonce and the integer that bytes hold.
pub open spec fn challenge_of(bytes: Seq<u8>) -> Option<(u32, Seq<u8>, u64)> {
    match read_variant(bytes) {
        Some((tag, rest)) => if rest.len() >= 32 {
            match last_int(rest.skip(32)) {
                Some(timestamp) => Some((tag, rest.take(32), timestamp)),
                None => None,
            }
        } else {
            None
        },
        None => None,
    }
}

/// The variant number and the texts that bytes hold.
pub open spec fn granted_of(bytes: Seq<u8>) -> Option<(u32, Seq<Seq<char>>)> {
    match read_variant(bytes) {
        Some((tag, rest)) => match read_int(rest) {
            Some((count, rest)) => match read_texts(rest, count) {
                Some((roles, rest)) => if rest.len() == 0 {
                    Some((tag, roles))
                } else {
                    None
                },
                None => None,
            },
            None => None,
        },
        None => None,
    }
}

/// The text and the fingerprint that bytes hold.
pub open spec fn header_of(bytes: Seq<u8>) -> Option<(Seq<char>, Seq<u8>)> {
    match read_text(bytes) {
        Some((service, sha)) => if sha.len() == 32 {
            Some((service, sha))
        } else {
            None
        },
        None => None,
    }
}

/// How many integers a number of bytes can hold.
spec fn span(count: nat) -> nat
    decreases count,
{
    if count == 0 {
        1
    } else {
        256 * span((count - 1) as nat)
    }
}

proof fn lemma_le(n: nat, count: nat)
    requires
        n < span(count),
    ensures
        le_bytes(n, count).len() == count,
        le_value(le_bytes(n, count)) == n,
    decreases count,
{
    if count > 0 {
        lemma_le(n / 256, (count - 1) as nat);
        assert(le_bytes(n, count).skip(1) =~= le_bytes(n / 256, (count - 1) as nat));
    }
}

proof fn lemma_le_value(bytes: Seq<u8>)
    ensures
        le_value(bytes) < span(bytes.len()),
    decreases bytes.len(),
{
    if bytes.len() > 0 {
        lemma_le_value(bytes.skip(1));
    }
}

proof fn lemma_spans()
    ensures
        span(2) == 0x1_0000,
        span(4) == 0x1_0000_0000,
        span(8) == 0x1_0000_0000_0000_0000,
{
    reveal_with_fuel(span, 9);
}

proof fn lemma_le_len(n: nat, count: nat)
    ensures
        le_bytes(n, count).len() == count,
    decreases count,
{
    if count > 0 {
        lemma_le_len(n / 256, (count - 1) as nat);
    }
}

/// An integer that is written is read back, whatever follows it.
pub proof fn int_is_read_back(n: nat, tail: Seq<u8>)
    requires
        n <= u64::MAX,
    ensures
        read_int(varint(n) + tail) == Some((n, tail)),
{
    lemma_spans();
    let bytes = varint(n) + tail;
    if n <= 250 {
        assert(bytes.skip(1) =~= tail);
    } else {
        let count: nat = if n < 0x1_0000 {
            2
        } else if n < 0x1_0000_0000 {
            4
        } else {
            8
        };
        lemma_le(n, count);
        assert(bytes.subrange(1, 1 + count as int) =~= le_bytes(n, count));
        assert(bytes.skip(1 + count as int) =~= tail);
    }
}

/// An integer that is read fits in eight bytes, and is written in no more bytes than it was
/// read from.
pub proof fn int_is_written_in_no_more(bytes: Seq<u8>)
    ensures
        read_int(bytes) matches Some((n, rest)) ==> n <= u64::MAX && varint(n).len() + rest.len()
            <= bytes.len(),
{
    lemma_spans();
    if bytes.len() > 0 && bytes[0] > 250 && read_int(bytes) is Some {
        let count: int = if bytes[0] == 251 {
            2
        } else if bytes[0] == 252 {
            4
        } else {
            8
        };
        lemma_le_value(bytes.subrange(1, 1 + count));
        let n = (read_int(bytes)->0).0;
        lemma_le_len(n, 2);
        lemma_le_len(n, 4);
        lemma_le_len(n, 8);
    }
}

proof fn lemma_block(block: Seq<u8>, tail: Seq<u8>)
    requires
        block.len() <= u64::MAX,
    ensures
        read_block(varint(block.len()) + block + tail) == Some((block, tail)),
{
    let bytes = varint(block.len()) + block + tail;
    assert(bytes =~= varint(block.len()) + (block + tail));
    int_is_read_back(block.len(), block + tail);
    assert((block + tail).take(block.len() as int) =~= block);
    assert((block + tail).skip(block.len() as int) =~= tail);
}

proof fn lemma_block_len(bytes: Seq<u8>)
    ensures
        read_block(bytes) matches Some((block, rest)) ==> block.len() <= u64::MAX && varint(
            block.len(),
        ).len() + block.len() + rest.len() <= bytes.len(),
{
    int_is_written_in_no_more(bytes);
}

/// A text that is written is read back, whatever follows it.
pub proof fn text_is_read_back(s: Seq<char>, tail: Seq<u8>)
    requires
        text_wire(s).len() <= u64::MAX,
    ensures
        read_text(text_wire(s) + tail) == Some((s, tail)),
{
    let utf8 = vstd::utf8::encode_utf8(s);
    lemma_block(utf8, tail);
    vstd::utf8::encode_utf8_valid_utf8(s);
    vstd::utf8::encode_utf8_decode_utf8(s);
}

proof fn lemma_text_len(bytes: Seq<u8>)
    ensures
        read_text(bytes) matches Some((s, rest)) ==> text_wire(s).len() + rest.len()
            <= bytes.len(),
{
    lemma_block_len(bytes);
    if read_text(bytes) is Some {
        vstd::utf8::decode_utf8_encode_utf8((read_block(bytes)->0).0);
    }
}

/// Texts that are written are read back, whatever follows them.
pub proof fn texts_are_read_back(v: Seq<Seq<char>>, tail: Seq<u8>)
    requires
        texts_wire(v).len() <= u64::MAX,
    ensures
        read_texts(texts_wire(v) + tail, v.len()) == Some((v, tail)),
    decreases v.len(),
{
    let bytes = texts_wire(v) + tail;
    if v.len() > 0 {
        let rest = texts_wire(v.skip(1)) + tail;
        assert(bytes =~= text_wire(v[0]) + rest);
        text_is_read_back(v[0], rest);
        texts_are_read_back(v.skip(1), tail);
        assert(seq![v[0]] + v.skip(1) =~= v);
    } else {
        assert(bytes =~= tail);
        assert(v =~= Seq::empty());
    }
}

proof fn lemma_texts_len(bytes: Seq<u8>, count: nat)
    ensures
        read_texts(bytes, count) matches Some((v, rest)) ==> v.len() == count && texts_wire(v).len()
            + rest.len() <= bytes.len(),
    decreases count,
{
    if count > 0 && read_texts(bytes, count) is Some {
        let (first, rest) = read_text(bytes)->0;
        lemma_text_len(bytes);
        lemma_texts_len(rest, (count - 1) as nat);
        let others = (read_texts(rest, (count - 1) as nat)->0).0;
        assert((seq![first] + others).skip(1) =~= others);
    }
}

proof fn lemma_texts_count(v: Seq<Seq<char>>)
    ensures
        v.len() <= texts_wire(v).len(),
    decreases v.len(),
{
    if v.len() > 0 {
        lemma_texts_count(v.skip(1));
    }
}

proof fn lemma_last_int(n: u64, tail: Seq<u8>)
    ensures
        last_int(varint(n as nat) + tail) == (if tail.len() == 0 {
            Some(n)
        } else {
            None
        }),
{
    int_is_read_back(n as nat, tail);
}

/// An answer that is written is read back, and refused if anything follows it.
pub proof fn answer_is_read_back(tag: u32, signature: Seq<u8>, timestamp: u64, tail: Seq<u8>)
    requires
        signature.len() <= u64::MAX,
    ensures
        answer_of(answer_wire(tag, signature, timestamp) + tail) == (if tail.len() == 0 {
            Some((tag, signature, timestamp))
        } else {
            None
        }),
{
    let bytes = answer_wire(tag, signature, timestamp) + tail;
    let end = varint(timestamp as nat) + tail;
    let body = varint(signature.len()) + signature + end;
    assert(bytes =~= varint(tag as nat) + body);
    int_is_read_back(tag as nat, body);
    lemma_block(signature, end);
    lemma_last_int(timestamp, tail);
}

/// A challenge that is written is read back, and refused if anything follows it.
pub proof fn challenge_is_read_back(tag: u32, nonce: Seq<u8>, timestamp: u64, tail: Seq<u8>)
    requires
        nonce.len() == 32,
    ensures
        challenge_of(challenge_wire(tag, nonce, timestamp) + tail) == (if tail.len() == 0 {
            Some((tag, nonce, timestamp))
        } else {
            None
        }),
{
    let bytes = challenge_wire(tag, nonce, timestamp) + tail;
    let end = varint(timestamp as nat) + tail;
    assert(bytes =~= varint(tag as nat) + (nonce + end));
    int_is_read_back(tag as nat, nonce + end);
    assert((nonce + end).take(32) =~= nonce);
    assert((nonce + end).skip(32) =~= end);
    lemma_last_int(timestamp, tail);
}

/// A grant that is written is read back, and refused if anything follows it.
pub proof fn grant_is_read_back(tag: u32, roles: Seq<Seq<char>>, tail: Seq<u8>)
    requires
        granted_wire(tag, roles).len() <= u64::MAX,
    ensures
        granted_of(granted_wire(tag, roles) + tail) == (if tail.len() == 0 {
            Some((tag, roles))
        } else {
            None
        }),
{
    let bytes = granted_wire(tag, roles) + tail;
    let list = texts_wire(roles) + tail;
    let body = varint(roles.len()) + list;
    assert(bytes =~= varint(tag as nat) + body);
    lemma_texts_count(roles);
    int_is_read_back(tag as nat, body);
    int_is_read_back(roles.len(), list);
    texts_are_read_back(roles, tail);
}

/// A header that is written is read back, and refused if anything follows it.
pub proof fn header_is_read_back(service: Seq<char>, sha: Seq<u8>, tail: Seq<u8>)
    requires
        text_wire(service).len() <= u64::MAX,
        sha.len() == 32,
    ensures
        header_of(header_wire(service, sha) + tail) == (if tail.len() == 0 {
            Some((service, sha))
        } else {
            None
        }),
{
    let bytes = header_wire(service, sha) + tail;
    assert(bytes =~= text_wire(service) + (sha + tail));
    text_is_read_back(service, sha + tail);
    if tail.len() == 0 {
        assert(sha + tail =~= sha);
    }
}

/// What is read is written in no more bytes than it was read from.
pub proof fn read_is_written_in_no_more(bytes: Seq<u8>)
    ensures
        tag_of(bytes) matches Some(tag) ==> varint(tag as nat).len() <= bytes.len(),
        answer_of(bytes) matches Some((tag, signature, timestamp)) ==> answer_wire(
            tag,
            signature,
            timestamp,
        ).len() <= bytes.len(),
        challenge_of(bytes) matches Some((tag, nonce, timestamp)) ==> nonce.len() == 32
            && challenge_wire(tag, nonce, timestamp).len() <= bytes.len(),
        granted_of(bytes) matches Some((tag, roles)) ==> granted_wire(tag, roles).len()
            <= bytes.len(),
        header_of(bytes) matches Some((service, sha)) ==> sha.len() == 32 && header_wire(
            service,
            sha,
        ).len() <= bytes.len(),
{
    int_is_written_in_no_more(bytes);
    lemma_text_len(bytes);
    if read_variant(bytes) is Some {
        let rest = (read_variant(bytes)->0).1;
        lemma_block_len(rest);
        int_is_written_in_no_more(rest);
        if read_block(rest) is Some {
            int_is_written_in_no_more((read_block(rest)->0).1);
        }
        if rest.len() >= 32 {
            int_is_written_in_no_more(rest.skip(32));
        }
        if read_int(rest) is Some {
            let (count, list) = read_int(rest)->0;
            lemma_texts_len(list, count);
        }
    }
}

} // verus!
