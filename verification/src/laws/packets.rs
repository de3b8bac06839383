//! What holds of packets.

use crate::address::SocketAddrV6;
use crate::laws::texts::{law_numbers_read_back, value};
use crate::laws::{record, records, lemma_record};
use crate::packet::{addresses, big_endian, escaped, escaped_byte, get_server_info_packet,
    has_key, hex_digit, is_info_table, is_servers_reply, is_wrong_version, query_servers_packet,
    record_address, reply_addresses, reply_key, ProtocolError, PACKET_SIZE};
use crate::text::decimal;
use vstd::prelude::*;
use vstd::utf8::{encode_utf8, encode_utf8_decode_utf8};

verus! {

/// Bytes as the characters that they are the numbers of.
pub open spec fn as_chars(bytes: Seq<u8>) -> Seq<char> {
    Seq::new(bytes.len(), |i: int| bytes[i] as char)
}

/// A request for information says `info` and names the protocol version that
/// it is in: what stands behind the blank reads as that number.
pub proof fn law_requests_name_the_version(protocol: u8)
    ensures
        ({
            let p = get_server_info_packet(protocol);
            &&& p.take(9) == seq![255u8, 255, 255, 255, 'i' as u8, 'n' as u8, 'f' as u8, 'o' as u8, ' ' as u8]
            &&& p.len() > 9
            &&& value(as_chars(p.skip(9))) == protocol
            &&& forall|i: int| 9 <= i < p.len() ==> '0' as u8 <= #[trigger] p[i] <= '9' as u8
        }),
{
    let p = get_server_info_packet(protocol);
    let d = decimal(protocol as nat);
    law_numbers_read_back(protocol as nat);
    assert(p.take(9) =~= seq![255u8, 255, 255, 255, 'i' as u8, 'n' as u8, 'f' as u8, 'o' as u8, ' ' as u8]);
    assert(p.len() == 9 + d.len());
    assert forall|i: int| 9 <= i < p.len() implies '0' as u8 <= #[trigger] p[i] <= '9' as u8 by {
        assert('0' <= d[i - 9] <= '9');
    }
    assert forall|i: int| 0 <= i < d.len() implies as_chars(p.skip(9))[i] == d[i] by {
        assert('0' <= d[i] <= '9');
    }
    assert(as_chars(p.skip(9)) =~= d);
}

/// A request for a list begins with `1` and the region and holds the whole
/// filter, between the zero behind the address and the zero at its end.
/// Different filters make different requests.
pub proof fn law_requests_hold_the_filter(
    region: u8,
    last: Seq<char>,
    filter: Seq<char>,
    other: Seq<char>,
)
    ensures
        ({
            let p = query_servers_packet(region, last, filter);
            let n = encode_utf8(last).len() as int;
            &&& p.len() == n + encode_utf8(filter).len() + 4
            &&& p[0] == '1' as u8
            &&& p[1] == region
            &&& p.subrange(2, 2 + n) == encode_utf8(last)
            &&& p[2 + n] == 0
            &&& p.subrange(3 + n, p.len() - 1) == encode_utf8(filter)
            &&& p.last() == 0
        }),
        query_servers_packet(region, last, filter) == query_servers_packet(region, last, other)
            ==> filter == other,
{
    let p = query_servers_packet(region, last, filter);
    let q = query_servers_packet(region, last, other);
    let n = encode_utf8(last).len() as int;
    assert(p.subrange(2, 2 + n) =~= encode_utf8(last));
    assert(p.subrange(3 + n, p.len() - 1) =~= encode_utf8(filter));
    assert(q.subrange(3 + n, q.len() - 1) =~= encode_utf8(other));
    if p == q {
        encode_utf8_decode_utf8(filter);
        encode_utf8_decode_utf8(other);
    }
}

/// A request for a list fits just where the filter has no more than 502 bytes,
/// which with the rest of the request makes 512.
pub proof fn law_filters_that_fit(filter: Seq<char>)
    ensures
        query_servers_packet(0xff, "[::]:0"@, filter).len() <= PACKET_SIZE <==> encode_utf8(
            filter,
        ).len() <= 502,
{
    reveal_strlit("[::]:0");
    let last = "[::]:0"@;
    assert(last =~= seq!['[', ':', ':', ']', ':', '0']);
    lemma_ascii_len(last);
    law_requests_hold_the_filter(0xff, last, filter, filter);
}

/// A text of characters that take one byte each takes as many bytes as it has
/// characters.
proof fn lemma_ascii_len(text: Seq<char>)
    requires
        vstd::utf8::is_ascii_chars(text),
    ensures
        encode_utf8(text).len() == text.len(),
{
    vstd::utf8::is_ascii_chars_encode_utf8(text);
}

/// A datagram is a list just where it begins with four times 255, `f` and a
/// line end.
pub proof fn law_how_lists_begin(raw: Seq<u8>)
    ensures
        is_servers_reply(raw) <==> raw.len() >= 6 && raw[0] == 255 && raw[1] == 255 && raw[2] == 255
            && raw[3] == 255 && raw[4] == 'f' as u8 && raw[5] == '\n' as u8,
{
    if raw.len() >= 6 {
        if raw[0] == 255 && raw[1] == 255 && raw[2] == 255 && raw[3] == 255 && raw[4] == 'f' as u8
            && raw[5] == '\n' as u8 {
            assert(raw.take(6) =~= seq![0xffu8, 0xff, 0xff, 0xff, 0x66, 0x0a]);
        }
        if is_servers_reply(raw) {
            assert(forall|i: int| 0 <= i < 6 ==> raw[i] == raw.take(6)[i]);
        }
    }
}

/// A list has a key just where the marks on either side of it stand, and the
/// key's lowest byte comes first.
pub proof fn law_keys_stand_between_marks(raw: Seq<u8>)
    requires
        is_servers_reply(raw),
    ensures
        reply_key(raw) is Some <==> raw.len() >= 12 && raw[6] == 127 && raw[11] == 8,
        reply_key(raw) matches Some(k) ==> {
            &&& k % 256 == raw[7]
            &&& k / 256 % 256 == raw[8]
            &&& k / 65536 % 256 == raw[9]
            &&& k / 16777216 == raw[10]
        },
{
    let body = raw.skip(6);
    assert(raw.len() >= 6);
    assert(forall|i: int| 0 <= i < body.len() ==> body[i] == raw[i + 6]);
}

/// Four bytes from `at` on as one number, the highest first.
pub open spec fn word(r: Seq<u8>, at: int) -> int {
    r[at] * 0x100_0000 + r[at + 1] * 0x1_0000 + r[at + 2] * 0x100 + r[at + 3]
}

/// A record's address has the record's bytes, the highest first: sixteen of
/// them are the IP, and the last two the port.
pub proof fn law_records_hold_the_bytes(r: Seq<u8>)
    requires
        r.len() >= 18,
    ensures
        record_address(r).port == r[16] * 256 + r[17],
        record_address(r).ip == word(r, 0) * 0x1_0000_0000_0000_0000_0000_0000 + word(r, 4)
            * 0x1_0000_0000_0000_0000 + word(r, 8) * 0x1_0000_0000 + word(r, 12),
        record_address(r).flowinfo == 0,
        record_address(r).scope_id == 0,
{
    let p = r.subrange(16, 18);
    assert(p.drop_last() =~= seq![r[16]]);
    assert(p.drop_last().drop_last() =~= seq![]);
    reveal_with_fuel(big_endian, 3);
    lemma_prefix(r, 16);
}

/// The number of the first `n` bytes, byte by byte.
spec fn prefix(r: Seq<u8>, n: nat) -> int
    decreases n,
{
    if n == 0 {
        0
    } else {
        prefix(r, (n - 1) as nat) * 256 + r[n - 1]
    }
}

proof fn lemma_big_endian_prefix(r: Seq<u8>, n: nat)
    requires
        n <= r.len(),
    ensures
        big_endian(r.subrange(0, n as int)) == prefix(r, n),
    decreases n,
{
    if n > 0 {
        lemma_big_endian_prefix(r, (n - 1) as nat);
        assert(r.subrange(0, n as int).drop_last() =~= r.subrange(0, n - 1));
    }
}

proof fn lemma_prefix(r: Seq<u8>, n: nat)
    requires
        r.len() >= 18,
        n == 16,
    ensures
        big_endian(r.subrange(0, 16)) == word(r, 0) * 0x1_0000_0000_0000_0000_0000_0000 + word(r, 4)
            * 0x1_0000_0000_0000_0000 + word(r, 8) * 0x1_0000_0000 + word(r, 12),
{
    lemma_big_endian_prefix(r, 16);
    reveal_with_fuel(prefix, 17);
}

/// A list that ends without a record of zeros is read to its end, unless port 0
/// stands there; bytes that make no whole record are left out.
pub proof fn law_lists_may_end_early(list: Seq<SocketAddrV6>, tail: Seq<u8>)
    requires
        forall|i: int|
            0 <= i < list.len() ==> (#[trigger] list[i]) == SocketAddrV6::plain(
                list[i].ip,
                list[i].port,
            ),
        tail.len() < 18,
        tail.len() == 0 && list.len() > 0 ==> list.last().port != 0,
    ensures
        addresses(records(list) + tail) == list,
    decreases list.len(),
{
    if list.len() == 0 {
        assert(records(list) + tail =~= tail);
        assert(addresses(tail) =~= list);
    } else {
        let first = list[0];
        let rest = list.skip(1);
        lemma_record(first, records(rest) + tail);
        assert forall|i: int| 0 <= i < rest.len() implies (#[trigger] rest[i])
            == SocketAddrV6::plain(rest[i].ip, rest[i].port) by {
            assert(rest[i] == list[i + 1]);
        }
        if rest.len() > 0 {
            assert(rest.last() == list.last());
        }
        law_lists_may_end_early(rest, tail);
        let all = records(list) + tail;
        assert(all =~= record(first) + (records(rest) + tail));
        assert(all.skip(18) =~= records(rest) + tail);
        if all.len() == 18 {
            assert(rest.len() == 0) by {
                if rest.len() > 0 {
                    lemma_record(rest[0], records(rest.skip(1)));
                    assert(records(rest) == record(rest[0]) + records(rest.skip(1)));
                }
            }
            law_records_hold_the_bytes(all);
        }
        assert(addresses(all) =~= seq![first] + rest);
        assert(seq![first] + rest =~= list);
    }
}

/// A list ends at once where only a record with port 0, or less than a record,
/// is left.
pub proof fn law_last_record_without_port_is_no_address(records: Seq<u8>)
    requires
        records.len() < 18 || records.len() == 18 && record_address(records).port == 0,
    ensures
        addresses(records).len() == 0,
{
    if records.len() == 18 {
        law_records_hold_the_bytes(records);
    }
}

/// The addresses of a list begin behind its key, or behind its first six bytes
/// where it has none.
pub proof fn law_where_addresses_begin(raw: Seq<u8>)
    requires
        is_servers_reply(raw),
    ensures
        reply_key(raw) is Some ==> reply_addresses(raw) == addresses(raw.skip(12)),
        reply_key(raw) is None ==> reply_addresses(raw) == addresses(raw.skip(6)),
{
    assert(raw.len() >= 6);
    let body = raw.skip(6);
    if has_key(body) {
        assert(body.skip(6) =~= raw.skip(12));
    }
}

/// A game server's reply is a table just where a backslash stands behind the
/// line that says `info`; it turns the version down just where it is no table
/// and ends in the words for that.
pub proof fn law_how_replies_are_told_apart(raw: Seq<u8>)
    ensures
        ({
            let head = raw.len() >= 9 && raw[0] == 255 && raw[1] == 255 && raw[2] == 255 && raw[3]
                == 255 && raw[4] == 'i' as u8 && raw[5] == 'n' as u8 && raw[6] == 'f' as u8
                && raw[7] == 'o' as u8 && raw[8] == '\n' as u8;
            let n = raw.len() as int;
            let tail = n >= 25 && raw[n - 16] == ':' as u8 && raw[n - 15] == ' ' as u8 && raw[n - 14]
                == 'w' as u8 && raw[n - 13] == 'r' as u8 && raw[n - 12] == 'o' as u8 && raw[n - 11]
                == 'n' as u8 && raw[n - 10] == 'g' as u8 && raw[n - 9] == ' ' as u8 && raw[n - 8]
                == 'v' as u8 && raw[n - 7] == 'e' as u8 && raw[n - 6] == 'r' as u8 && raw[n - 5]
                == 's' as u8 && raw[n - 4] == 'i' as u8 && raw[n - 3] == 'o' as u8 && raw[n - 2]
                == 'n' as u8 && raw[n - 1] == '\n' as u8;
            &&& is_info_table(raw) <==> head && n > 9 && raw[9] == '\\' as u8
            &&& is_wrong_version(raw) <==> head && tail && raw[9] != '\\' as u8
        }),
{
    let h = crate::packet::info_header();
    let t = crate::packet::wrong_version_tail();
    let n = raw.len() as int;
    if n >= 9 {
        assert(raw.take(9) == h <==> forall|i: int| 0 <= i < 9 ==> raw[i] == #[trigger] h[i]) by {
            if forall|i: int| 0 <= i < 9 ==> raw[i] == #[trigger] h[i] {
                assert(raw.take(9) =~= h);
            }
            if raw.take(9) == h {
                assert(forall|i: int| 0 <= i < 9 ==> raw[i] == raw.take(9)[i]);
            }
        }
    }
    if n >= 16 {
        assert(raw.skip(n - 16) == t <==> forall|i: int| 0 <= i < 16 ==> raw[n - 16 + i] == #[trigger] t[i])
            by {
            if forall|i: int| 0 <= i < 16 ==> raw[n - 16 + i] == #[trigger] t[i] {
                assert(raw.skip(n - 16) =~= t);
            }
            if raw.skip(n - 16) == t {
                assert(forall|i: int| 0 <= i < 16 ==> raw[n - 16 + i] == #[trigger] raw.skip(
                    n - 16,
                )[i]);
            }
        }
    }
}

/// The number that a hexadecimal digit stands for.
pub open spec fn hex_value(c: char) -> int {
    if '0' <= c <= '9' {
        c as int - '0' as int
    } else {
        c as int - 'a' as int + 10
    }
}

/// A byte that can be printed stands for itself, but for the backslash, which
/// is doubled. Of the others, line end and tabulator have letters, and the rest
/// a number that reads as the byte.
pub proof fn law_bytes_in_words(b: u8)
    ensures
        ({
            let w = escaped_byte(b);
            &&& 0x20 <= b <= 0x7e && b != '\\' as u8 ==> w == seq![b as char]
            &&& !(0x20 <= b <= 0x7e) || b == '\\' as u8 ==> w.len() >= 2 && w[0] == '\\'
            &&& b == '\\' as u8 <==> w == seq!['\\', '\\']
            &&& b == 10 <==> w == seq!['\\', 'n']
            &&& b == 9 <==> w == seq!['\\', 't']
            &&& !(0x20 <= b <= 0x7e) && b != 10 && b != 9 ==> {
                &&& w.len() == 4
                &&& w[1] == 'x'
                &&& hex_value(w[2]) * 16 + hex_value(w[3]) == b
            }
            &&& forall|i: int| 0 <= i < w.len() ==> ' ' <= #[trigger] w[i] <= '~'
        }),
{
    assert(hex_value(hex_digit(b as nat / 16)) == b as nat / 16);
    assert(hex_value(hex_digit(b as nat % 16)) == b as nat % 16);
    let w = escaped_byte(b);
    if w == seq!['\\', '\\'] {
        assert(w[1] == '\\');
    }
    if w == seq!['\\', 'n'] {
        assert(w[1] == 'n');
    }
    if w == seq!['\\', 't'] {
        assert(w[1] == 't');
    }
}

/// Bytes in words are the words of each byte, in order: those of two rows of
/// bytes stand one behind the other.
pub proof fn law_words_add_up(a: Seq<u8>, b: Seq<u8>)
    ensures
        escaped(a + b) == escaped(a) + escaped(b),
        a.len() == 1 ==> escaped(a) == escaped_byte(a[0]),
        a.len() == 0 ==> escaped(a).len() == 0,
    decreases b.len(),
{
    reveal_with_fuel(escaped, 2);
    if a.len() == 1 {
        assert(a.drop_last() =~= seq![]);
        assert(escaped(a) =~= escaped_byte(a[0]));
    }
    if b.len() == 0 {
        assert(a + b =~= a);
        assert(escaped(a) + escaped(b) =~= escaped(a));
    } else {
        law_words_add_up(a, b.drop_last());
        assert((a + b).drop_last() =~= a + b.drop_last());
        assert(escaped(a + b) =~= escaped(a) + escaped(b));
    }
}

/// An error is told in its own words.
pub proof fn law_errors_in_words(message: Seq<char>)
    ensures
        ProtocolError::Other(message).message() == message,
        ProtocolError::<Seq<char>>::InvalidProtocolVersion.message() == "Invalid protocol version"@,
{
}

} // verus!
