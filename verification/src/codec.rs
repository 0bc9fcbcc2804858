//! The Kermit wire format: printable integers, control quoting, the one-character check and
//! packet framing.
//!
//! A packet is `SOH LEN SEQ TYPE DATA CHECK EOL`. LEN counts everything after itself up to and
//! including CHECK. CHECK covers LEN, SEQ, TYPE and DATA.

use vstd::prelude::*;

verus! {

/// Start-of-packet mark.
pub const SOH: u8 = 0x01;

/// End-of-packet character.
pub const EOL: u8 = 0x0d;

/// Control-quote prefix, `#`.
pub const QCTL: u8 = 0x23;

/// The largest number that [`tochar`] can make into a character.
pub const TOCHAR_MAX: u8 = 223;

/// A small number as a character: `n + 32`.
pub open spec fn spec_tochar(n: int) -> u8 {
    (n + 32) as u8
}

/// The number that a character stands for: `c - 32`, modulo 256.
pub open spec fn spec_unchar(c: u8) -> u8 {
    if c >= 32 {
        (c - 32) as u8
    } else {
        (c + 224) as u8
    }
}

pub fn tochar(n: u8) -> (c: u8)
    requires
        n <= TOCHAR_MAX,
    ensures
        c == n + 32,
        c == spec_tochar(n as int),
{
    n + 32
}

pub fn unchar(c: u8) -> (n: u8)
    ensures
        n == spec_unchar(c),
        (n + 32) % 256 == c,
{
    c.wrapping_sub(32)
}

/// The bytes that may not travel bare: the control characters, DEL and the prefix itself.
pub open spec fn spec_needs_quote(b: u8) -> bool {
    b < 0x20 || b == 0x7f || b == QCTL
}

pub fn needs_quote(b: u8) -> (q: bool)
    ensures
        q == spec_needs_quote(b),
{
    b < 0x20 || b == 0x7f || b == QCTL
}

/// One byte as it travels in a DATA field.
pub open spec fn quoted_byte(b: u8) -> Seq<u8> {
    if spec_needs_quote(b) {
        seq![QCTL, b ^ 0x40]
    } else {
        seq![b]
    }
}

/// A byte string as it travels in a DATA field: each byte quoted on its own.
pub open spec fn quoted(data: Seq<u8>) -> Seq<u8>
    decreases data.len(),
{
    if data.len() == 0 {
        Seq::empty()
    } else {
        quoted_byte(data[0]) + quoted(data.drop_first())
    }
}

/// What a DATA field stands for: a prefix and the byte behind it are one byte with bit 6 flipped,
/// and every other byte, a prefix in the last place included, is itself.
pub open spec fn unquoted(data: Seq<u8>) -> Seq<u8>
    decreases data.len(),
{
    if data.len() == 0 {
        Seq::empty()
    } else if data[0] == QCTL && data.len() > 1 {
        seq![data[1] ^ 0x40] + unquoted(data.skip(2))
    } else {
        seq![data[0]] + unquoted(data.skip(1))
    }
}

/// Quoting a concatenation is concatenating the quoted parts.
pub proof fn lemma_quoted_concat(a: Seq<u8>, b: Seq<u8>)
    ensures
        quoted(a + b) == quoted(a) + quoted(b),
    decreases a.len(),
{
    if a.len() == 0 {
        assert(a + b =~= b);
        assert(quoted(a) + quoted(b) =~= quoted(b));
    } else {
        assert((a + b).drop_first() =~= a.drop_first() + b);
        lemma_quoted_concat(a.drop_first(), b);
        assert(quoted(a + b) =~= quoted(a) + quoted(b));
    }
}

pub proof fn lemma_quoted_push(a: Seq<u8>, b: u8)
    ensures
        quoted(a.push(b)) == quoted(a) + quoted_byte(b),
{
    let one = seq![b];
    assert(a.push(b) =~= a + one);
    lemma_quoted_concat(a, one);
    reveal_with_fuel(quoted, 2);
    assert(one.drop_first() =~= Seq::<u8>::empty());
    assert(quoted(one) =~= quoted_byte(b));
}

/// Control-quotes a byte string for the DATA field.
///
/// A literal prefix byte goes out as `# c`, not as a doubled prefix: the receiving ROM flips bit 6
/// of whatever follows a prefix, without looking at it.
pub fn quote(data: &[u8]) -> (out: Vec<u8>)
    ensures
        out@ == quoted(data@),
{
    let mut out: Vec<u8> = Vec::new();
    let mut i: usize = 0;
    while i < data.len()
        invariant
            i <= data.len(),
            out@ == quoted(data@.take(i as int)),
        decreases data.len() - i,
    {
        let b: u8 = data[i];
        proof {
            assert(data@.take(i + 1) =~= data@.take(i as int).push(b));
            lemma_quoted_push(data@.take(i as int), b);
        }
        if needs_quote(b) {
            out.push(QCTL);
            out.push(b ^ 0x40);
        } else {
            out.push(b);
        }
        assert(out@ =~= quoted(data@.take(i as int)) + quoted_byte(b));
        i += 1;
    }
    assert(data@.take(i as int) =~= data@);
    out
}

/// Reverses [`quote`].
pub fn unquote(data: &[u8]) -> (out: Vec<u8>)
    ensures
        out@ == unquoted(data@),
{
    let mut out: Vec<u8> = Vec::new();
    let mut i: usize = 0;
    assert(data@.skip(0) =~= data@);
    while i < data.len()
        invariant
            i <= data.len(),
            out@ + unquoted(data@.skip(i as int)) == unquoted(data@),
        decreases data.len() - i,
    {
        let ghost before = out@;
        let ghost rest = data@.skip(i as int);
        if data[i] == QCTL && i < data.len() - 1 {
            out.push(data[i + 1] ^ 0x40);
            i += 2;
            assert(rest.skip(2) =~= data@.skip(i as int));
        } else {
            out.push(data[i]);
            i += 1;
            assert(rest.skip(1) =~= data@.skip(i as int));
        }
        assert(out@ + unquoted(data@.skip(i as int)) =~= before + unquoted(rest));
    }
    assert(out@ + unquoted(data@.skip(i as int)) =~= out@);
    out
}

/// The sum of a byte string, without wraparound.
pub open spec fn byte_sum(bytes: Seq<u8>) -> nat
    decreases bytes.len(),
{
    if bytes.len() == 0 {
        0
    } else {
        byte_sum(bytes.drop_last()) + bytes.last() as nat
    }
}

/// The six-bit check of a sum: bits 6 and 7 folded onto the low six.
pub open spec fn folded(sum: nat) -> nat {
    (sum + (sum % 256) / 64) % 64
}

/// The check character of a byte string.
pub open spec fn checksum(bytes: Seq<u8>) -> u8 {
    spec_tochar(folded(byte_sum(bytes)) as int)
}

/// The check of a sum is that of its low byte.
proof fn lemma_folded(sum: nat, low: u8)
    requires
        low == sum % 256,
    ensures
        folded(sum) == (low + low / 64) % 64,
{
    let rest = low + low / 64;
    vstd::arithmetic::div_mod::lemma_fundamental_div_mod(sum as int, 256);
    assert(sum + low / 64 == 64 * (4 * (sum / 256)) + rest);
    vstd::arithmetic::div_mod::lemma_mod_multiples_vanish(4 * (sum / 256) as int, rest, 64);
}

/// The low byte of a sum goes on with the low byte of each part.
proof fn lemma_low_byte(sum: nat, b: u8)
    ensures
        (sum + b) % 256 == (sum % 256 + b) % 256,
{
    vstd::arithmetic::div_mod::lemma_add_mod_noop(sum as int, b as int, 256);
}

/// The one-character check over LEN, SEQ, TYPE and DATA.
///
/// The sum is kept in one byte. Bits 6 and 7 live in the low byte, so the check is that of the
/// whole sum.
pub fn checksum1(bytes: &[u8]) -> (c: u8)
    ensures
        c == checksum(bytes@),
        32 <= c < 96,
{
    let mut sum8: u8 = 0;
    let mut i: usize = 0;
    while i < bytes.len()
        invariant
            i <= bytes.len(),
            sum8 == byte_sum(bytes@.take(i as int)) % 256,
        decreases bytes.len() - i,
    {
        proof {
            assert(bytes@.take(i + 1).drop_last() =~= bytes@.take(i as int));
            lemma_low_byte(byte_sum(bytes@.take(i as int)), bytes@[i as int]);
        }
        sum8 = sum8.wrapping_add(bytes[i]);
        i += 1;
    }
    assert(bytes@.take(i as int) =~= bytes@);
    proof {
        lemma_folded(byte_sum(bytes@), sum8);
    }
    let wide: u32 = sum8 as u32;
    assert(wide >> 6 == wide / 64) by (bit_vector);
    let total: u32 = wide + (wide >> 6);
    assert(total & 0x3f == total % 64) by (bit_vector);
    let low: u32 = total & 0x3f;
    tochar(low as u8)
}

/// The LEN character of a packet with `n` bytes of DATA: it counts SEQ, TYPE, DATA and CHECK.
pub open spec fn len_char(n: nat) -> u8 {
    spec_tochar(n as int + 3)
}

/// Whether a packet with `n` bytes of DATA has a LEN character.
pub open spec fn has_len_char(n: nat) -> bool {
    n + 3 <= TOCHAR_MAX
}

/// The part of a packet that its check covers: LEN, SEQ, TYPE and DATA.
pub open spec fn checked_part(seq: u8, ptype: u8, data: Seq<u8>) -> Seq<u8> {
    seq![len_char(data.len()), spec_tochar(seq as int), ptype] + data
}

/// A packet on the wire.
pub open spec fn packet(seq: u8, ptype: u8, data: Seq<u8>) -> Seq<u8> {
    seq![SOH] + checked_part(seq, ptype, data) + seq![
        checksum(checked_part(seq, ptype, data)),
        EOL,
    ]
}

/// Tells whether [`build_packet`] can frame `n` bytes of DATA.
pub fn fits_len_char(n: usize) -> (fits: bool)
    ensures
        fits == has_len_char(n as nat),
{
    n <= TOCHAR_MAX as usize - 3
}

/// Builds a framed packet. `data` must already be quoted.
pub fn build_packet(seq: u8, ptype: u8, data: &[u8]) -> (pkt: Vec<u8>)
    requires
        seq <= TOCHAR_MAX,
        has_len_char(data@.len()),
    ensures
        pkt@ == packet(seq, ptype, data@),
{
    let len: usize = data.len() + 3;
    let mut checked: Vec<u8> = Vec::new();
    checked.push(tochar(len as u8));
    checked.push(tochar(seq));
    checked.push(ptype);
    checked.extend_from_slice(data);
    assert(checked@ =~= checked_part(seq, ptype, data@));
    let chk: u8 = checksum1(&checked);

    let mut pkt: Vec<u8> = Vec::new();
    pkt.push(SOH);
    pkt.extend_from_slice(&checked);
    pkt.push(chk);
    pkt.push(EOL);
    assert(pkt@ =~= packet(seq, ptype, data@));
    pkt
}

/// Every number that can be made into a character is had back from it.
pub proof fn law_unchar_reverses_tochar(n: u8)
    requires
        n <= TOCHAR_MAX,
    ensures
        spec_unchar(spec_tochar(n as int)) == n,
{
}

/// Unquoting a quoted byte string gives the byte string back, whatever its bytes.
pub proof fn law_unquote_reverses_quote(data: Seq<u8>)
    ensures
        unquoted(quoted(data)) == data,
    decreases data.len(),
{
    if data.len() > 0 {
        let b = data[0];
        let rest = data.drop_first();
        law_unquote_reverses_quote(rest);
        let q = quoted(data);
        if spec_needs_quote(b) {
            assert((b ^ 0x40) ^ 0x40 == b) by (bit_vector);
            assert(q.skip(2) =~= quoted(rest));
        } else {
            assert(q.skip(1) =~= quoted(rest));
        }
        assert(unquoted(q) =~= seq![b] + rest);
    }
    assert(unquoted(quoted(data)) =~= data);
}

/// A byte that is neither a control character nor DEL.
pub open spec fn travels_bare(b: u8) -> bool {
    b >= 0x20 && b != 0x7f
}

/// Quoting leaves no control character and no DEL, so neither a start mark nor an end-of-packet
/// character, in what it returns.
pub proof fn law_quoted_bytes_travel_bare(data: Seq<u8>)
    ensures
        forall|i: int| 0 <= i < quoted(data).len() ==> travels_bare(#[trigger] quoted(data)[i]),
    decreases data.len(),
{
    if data.len() > 0 {
        let b = data[0];
        let rest = data.drop_first();
        law_quoted_bytes_travel_bare(rest);
        assert(b < 0x20 || b == 0x7f || b == 0x23 ==> (b ^ 0x40) >= 0x20 && (b ^ 0x40) != 0x7f)
            by (bit_vector);
        let head = quoted_byte(b);
        assert forall|i: int| 0 <= i < quoted(data).len() implies travels_bare(
            #[trigger] quoted(data)[i],
        ) by {
            if i >= head.len() {
                assert(quoted(data)[i] == quoted(rest)[i - head.len()]);
            }
        }
    }
}

/// Quoting never shortens a byte string and at most doubles it.
pub proof fn law_quoted_length(data: Seq<u8>)
    ensures
        data.len() <= quoted(data).len() <= 2 * data.len(),
    decreases data.len(),
{
    if data.len() > 0 {
        law_quoted_length(data.drop_first());
    }
}

/// In a packet whose DATA was quoted, whose TYPE is printable and whose LEN and SEQ are within the
/// printable range, the start mark stands in the first place only, the end-of-packet character in
/// the last place only, and no other control character occurs.
pub proof fn law_packet_marks(seq: u8, ptype: u8, raw: Seq<u8>)
    requires
        seq <= 94,
        travels_bare(ptype),
        quoted(raw).len() + 3 <= 94,
    ensures
        ({
            let p = packet(seq, ptype, quoted(raw));
            &&& p[0] == SOH
            &&& p.last() == EOL
            &&& forall|i: int| 0 < i < p.len() - 1 ==> travels_bare(#[trigger] p[i])
        }),
{
    let data = quoted(raw);
    law_quoted_bytes_travel_bare(raw);
    let part = checked_part(seq, ptype, data);
    let p = packet(seq, ptype, data);
    assert forall|i: int| 0 < i < p.len() - 1 implies travels_bare(#[trigger] p[i]) by {
        if i == p.len() - 2 {
            assert(p[i] == checksum(part));
        } else {
            assert(p[i] == part[i - 1]);
            if i >= 4 {
                assert(part[i - 1] == data[i - 4]);
            }
        }
    }
}

/// A number up to 223 as a character is the number plus 32, and every character, taken for a
/// number, is that number plus 32, modulo 256.
pub proof fn law_characters_are_offset_by_a_space(n: int, c: u8)
    requires
        0 <= n <= 223,
    ensures
        spec_tochar(n) == n + 32,
        (spec_unchar(c) + 32) % 256 == c,
{
}

/// Quoting goes byte by byte: behind whatever was quoted before, a control character, DEL or `#`
/// adds `#` and the byte with bit 6 flipped, and every other byte adds itself.
pub proof fn law_quoting_goes_byte_by_byte(data: Seq<u8>, b: u8)
    ensures
        quoted(Seq::empty()).len() == 0,
        b < 32 || b == 127 || b == 35 ==> quoted(data.push(b)) == quoted(data).push(35).push(
            b ^ 0x40,
        ),
        !(b < 32 || b == 127 || b == 35) ==> quoted(data.push(b)) == quoted(data).push(b),
{
    lemma_quoted_push(data, b);
    if b < 32 || b == 127 || b == 35 {
        assert(quoted(data) + quoted_byte(b) =~= quoted(data).push(35).push(b ^ 0x40));
    } else {
        assert(quoted(data) + quoted_byte(b) =~= quoted(data).push(b));
    }
}

/// Unquoting takes a `#` and the byte behind it as one, with bit 6 flipped, and every other byte as
/// it is, a `#` that nothing stands behind included.
pub proof fn law_unquoting_goes_from_the_front(b: u8, c: u8, rest: Seq<u8>)
    ensures
        unquoted(Seq::empty()).len() == 0,
        unquoted(seq![35u8, c] + rest) == seq![c ^ 0x40] + unquoted(rest),
        b != 35 ==> unquoted(seq![b] + rest) == seq![b] + unquoted(rest),
        unquoted(seq![35u8]) == seq![35u8],
{
    assert((seq![35u8, c] + rest).skip(2) =~= rest);
    assert((seq![b] + rest).skip(1) =~= rest);
    let one = seq![35u8];
    assert(one.skip(1) =~= Seq::<u8>::empty());
    assert(unquoted(one) =~= seq![35u8] + unquoted(one.skip(1)));
    assert(unquoted(one) =~= one);
}

/// The check covers every byte. The sum of a byte string is nothing for an empty one, and each byte
/// that is appended adds itself, however long the byte string is. The check is the sum with bits 6
/// and 7 of its low byte folded onto the low six, as a character.
pub proof fn law_check_covers_every_byte(bytes: Seq<u8>, b: u8)
    ensures
        byte_sum(Seq::empty()) == 0,
        byte_sum(bytes.push(b)) == byte_sum(bytes) + b,
        checksum(bytes) - 32 == (byte_sum(bytes) + (byte_sum(bytes) % 256) / 64) % 64,
{
    assert(bytes.push(b).drop_last() =~= bytes);
}

proof fn lemma_sum_of_update(bytes: Seq<u8>, i: int, b: u8)
    requires
        0 <= i < bytes.len(),
    ensures
        byte_sum(bytes.update(i, b)) == byte_sum(bytes) - bytes[i] + b,
    decreases bytes.len(),
{
    let changed = bytes.update(i, b);
    if i == bytes.len() - 1 {
        assert(changed.drop_last() =~= bytes.drop_last());
    } else {
        assert(changed.drop_last() =~= bytes.drop_last().update(i, b));
        lemma_sum_of_update(bytes.drop_last(), i, b);
    }
}

proof fn lemma_next_check(sum: nat)
    ensures
        folded(sum + 1) != folded(sum),
{
    let low = (sum % 256) as u8;
    let next = ((sum + 1) % 256) as u8;
    lemma_folded(sum, low);
    lemma_folded(sum + 1, next);
    lemma_low_byte(sum, 1);
    assert(next == (low + 1) % 256);
    assert(next == (low + 1) % 256 ==> (low + low / 64) % 64 != (next + next / 64) % 64)
        by (bit_vector);
}

/// Whichever byte of a byte string is raised by one, its check changes.
pub proof fn law_raised_byte_changes_the_check(bytes: Seq<u8>, i: int)
    requires
        0 <= i < bytes.len(),
        bytes[i] < 255,
    ensures
        checksum(bytes.update(i, (bytes[i] + 1) as u8)) != checksum(bytes),
{
    lemma_sum_of_update(bytes, i, (bytes[i] + 1) as u8);
    lemma_next_check(byte_sum(bytes));
}

/// A packet byte by byte: the start mark, LEN, which counts all that follows it but the
/// end-of-packet character, SEQ, TYPE, DATA as it stands, the check of everything from LEN to the
/// end of DATA, and the end-of-packet character. DATA of up to 220 bytes can be framed.
pub proof fn law_packet_layout(seq: u8, ptype: u8, data: Seq<u8>)
    requires
        seq <= 223,
        data.len() <= 220,
    ensures
        ({
            let p = packet(seq, ptype, data);
            let n = data.len() as int;
            &&& has_len_char(data.len())
            &&& p.len() == n + 6
            &&& p[0] == 1
            &&& p[1] == n + 3 + 32
            &&& p[2] == seq + 32
            &&& p[3] == ptype
            &&& p.subrange(4, n + 4) == data
            &&& p[n + 4] == checksum(p.subrange(1, n + 4))
            &&& p[n + 5] == 13
        }),
{
    let p = packet(seq, ptype, data);
    let n = data.len() as int;
    assert(p.subrange(4, n + 4) =~= data);
    assert(p.subrange(1, n + 4) =~= checked_part(seq, ptype, data));
}

/// DATA of more than 220 bytes has no LEN character.
pub proof fn law_len_is_bounded(n: nat)
    ensures
        has_len_char(n) <==> n <= 220,
{
}

/// The check of a packet changes when a byte of its DATA is raised by one.
pub proof fn law_packet_check_guards_the_data(seq: u8, ptype: u8, data: Seq<u8>, i: int)
    requires
        seq <= 223,
        data.len() <= 220,
        0 <= i < data.len(),
        data[i] < 255,
    ensures
        packet(seq, ptype, data.update(i, (data[i] + 1) as u8))[data.len() as int + 4] != packet(
            seq,
            ptype,
            data,
        )[data.len() as int + 4],
{
    let changed = data.update(i, (data[i] + 1) as u8);
    let p = packet(seq, ptype, data);
    let q = packet(seq, ptype, changed);
    let n = data.len() as int;
    law_packet_layout(seq, ptype, data);
    law_packet_layout(seq, ptype, changed);
    let part = p.subrange(1, n + 4);
    assert(part[i + 3] == p.subrange(4, n + 4)[i]);
    assert(q.subrange(1, n + 4) =~= part.update(i + 3, (data[i] + 1) as u8));
    law_raised_byte_changes_the_check(part, i + 3);
}

} // verus!
