//! The 48-byte NTP packet.

use vstd::prelude::*;

verus! {

/// The `n` lowest bytes of a number, most significant byte first.
pub open spec fn be_bytes(value: int, n: nat) -> Seq<u8>
    decreases n,
{
    if n == 0 {
        Seq::empty()
    } else {
        be_bytes(value / 256, (n - 1) as nat).push((value % 256) as u8)
    }
}

/// `n` bytes are `n` bytes.
pub broadcast proof fn lemma_be_bytes_len(value: int, n: nat)
    ensures
        #[trigger] be_bytes(value, n).len() == n,
    decreases n,
{
    if n > 0 {
        lemma_be_bytes_len(value / 256, (n - 1) as nat);
    }
}

/// `buf` with `bytes` in the place of what stood from `at` on.
pub open spec fn overwritten(buf: Seq<u8>, at: int, bytes: Seq<u8>) -> Seq<u8> {
    Seq::new(
        buf.len(),
        |i: int|
            if at <= i < at + bytes.len() {
                bytes[i - at]
            } else {
                buf[i]
            },
    )
}

/// Write the `n` lowest bytes of a number at `at`, most significant byte first.
fn put_be(buf: &mut [u8], at: usize, value: u64, n: usize)
    requires
        at + n <= old(buf)@.len(),
    ensures
        final(buf)@ == overwritten(old(buf)@, at as int, be_bytes(value as int, n as nat)),
    decreases n,
{
    broadcast use lemma_be_bytes_len;
    if n > 0 {
        let len: usize = buf.len();
        assert(at + n <= len);
        buf[at + (n - 1)] = (value % 256) as u8;
        put_be(buf, at, value / 256, n - 1);
    }
    assert(buf@ == overwritten(old(buf)@, at as int, be_bytes(value as int, n as nat)));
}

/// Write a number into four bytes, most significant byte first.
pub fn write_u32_be(dst: &mut [u8], value: u32)
    requires
        old(dst)@.len() == 4,
    ensures
        final(dst)@ == be_bytes(value as int, 4),
{
    broadcast use lemma_be_bytes_len;
    put_be(dst, 0, value as u64, 4);
    assert(dst@ == be_bytes(value as int, 4));
}

/// Write a number into eight bytes, most significant byte first.
pub fn write_u64_be(dst: &mut [u8], value: u64)
    requires
        old(dst)@.len() == 8,
    ensures
        final(dst)@ == be_bytes(value as int, 8),
{
    broadcast use lemma_be_bytes_len;
    put_be(dst, 0, value, 8);
    assert(dst@ == be_bytes(value as int, 8));
}

/// Copy eight bytes of `src` from `from` on to `at`.
fn put_eight(buf: &mut [u8], at: usize, src: &[u8], from: usize)
    requires
        at + 8 <= old(buf)@.len(),
        from + 8 <= src@.len(),
    ensures
        final(buf)@ == overwritten(old(buf)@, at as int, src@.subrange(from as int, from + 8)),
{
    let len: usize = buf.len();
    let src_len: usize = src.len();
    let mut i: usize = 0;
    while i < 8
        invariant
            i <= 8,
            buf@.len() == len,
            at + 8 <= len,
            src@.len() == src_len,
            from + 8 <= src_len,
            len == old(buf)@.len(),
            buf@ == overwritten(old(buf)@, at as int, src@.subrange(from as int, from + i)),
        decreases 8 - i,
    {
        buf[at + i] = src[from + i];
        i = i + 1;
        assert(buf@ == overwritten(old(buf)@, at as int, src@.subrange(from as int, from + i)));
    }
}

/// Length of an NTP packet without extensions.
pub const NTP_PACKET_LEN: usize = 48;

/// What the discipline state says in a response.
#[derive(Clone, Copy, Debug)]
pub struct DisciplineParams {
    /// 1 when the time is good, 16 when it is not.
    pub stratum: u8,
    /// Leap indicator: 0 to 2 when the time is good, 3 when it is not.
    pub leap: u8,
    /// Root dispersion in seconds, with sixteen binary places.
    pub root_disp_short: u32,
    /// Root dispersion in microseconds.
    pub root_disp_us: u32,
    /// Timestamp of the last PPS pulse that disciplined the clock.
    pub ref_ts: u64,
    /// Timestamp at which these parameters hold.
    pub current_ts: u64,
    /// Binary logarithm of the worst-case error in seconds.
    pub precision: i8,
}

/// The protocol version in the first byte of a packet.
pub open spec fn version_of(first: u8) -> u8 {
    first / 8 % 8
}

/// The version that answers a request: its own if it is 1 to 4, otherwise 4.
pub open spec fn answer_version(version: u8) -> u8 {
    if 1 <= version <= 4 {
        version
    } else {
        4
    }
}

/// A signed byte as it is sent.
pub open spec fn signed_byte(v: i8) -> u8 {
    if v < 0 {
        (v + 256) as u8
    } else {
        v as u8
    }
}

/// The reference identifier: `GPS` when the time is good, `INIT` when it is not.
pub open spec fn reference_id(stratum: u8) -> Seq<u8> {
    if stratum == 1 {
        seq![0x47, 0x50, 0x53, 0]
    } else {
        seq![0x49, 0x4E, 0x49, 0x54]
    }
}

/// The response to a time request before the transmit timestamp is put in.
///
/// The fields are: leap indicator, version and server mode; stratum; the poll
/// interval of the request; precision; root delay, which is zero; root
/// dispersion; reference identifier; reference timestamp, zero unless the time is
/// good; the transmit timestamp of the request; receive timestamp; and eight
/// bytes for the transmit timestamp.
pub open spec fn response(req: Seq<u8>, dp: DisciplineParams, receive_ts: u64) -> Seq<u8> {
    seq![
        ((dp.leap % 4) * 64 + answer_version(version_of(req[0])) * 8 + 4) as u8,
        dp.stratum,
        req[2],
        signed_byte(dp.precision),
    ] + be_bytes(0, 4) + be_bytes(dp.root_disp_short as int, 4) + reference_id(dp.stratum)
        + be_bytes(
        if dp.stratum == 1 {
            dp.ref_ts as int
        } else {
            0
        },
        8,
    ) + req.subrange(40, 48) + be_bytes(receive_ts as int, 8) + be_bytes(0, 8)
}

/// Build the response to a time request, all but the transmit timestamp.
pub fn build_response(
    req: &[u8; NTP_PACKET_LEN],
    dp: &DisciplineParams,
    receive_ts: u64,
) -> (resp: [u8; NTP_PACKET_LEN])
    ensures
        resp@ == response(req@, *dp, receive_ts),
{
    broadcast use lemma_be_bytes_len;
    let mut resp: [u8; NTP_PACKET_LEN] = [0; NTP_PACKET_LEN];
    let client: u8 = req[0] / 8 % 8;
    let version: u8 = if 1 <= client && client <= 4 {
        client
    } else {
        4
    };
    resp[0] = (dp.leap % 4) * 64 + version * 8 + 4;
    resp[1] = dp.stratum;
    resp[2] = req[2];
    resp[3] = if dp.precision < 0 {
        (dp.precision as i16 + 256) as u8
    } else {
        dp.precision as u8
    };
    put_be(&mut resp, 4, 0, 4);
    put_be(&mut resp, 8, dp.root_disp_short as u64, 4);
    if dp.stratum == 1 {
        put_be(&mut resp, 12, 0x47505300, 4);
        put_be(&mut resp, 16, dp.ref_ts, 8);
        proof {
            reveal_with_fuel(be_bytes, 5);
        }
    } else {
        put_be(&mut resp, 12, 0x494E4954, 4);
        put_be(&mut resp, 16, 0, 8);
        proof {
            reveal_with_fuel(be_bytes, 5);
        }
    }
    put_eight(&mut resp, 24, req, 40);
    put_be(&mut resp, 32, receive_ts, 8);
    put_be(&mut resp, 40, 0, 8);
    assert(resp@ =~= response(req@, *dp, receive_ts));
    resp
}

/// Put the transmit timestamp into a response.
pub fn stamp_transmit(resp: &mut [u8; NTP_PACKET_LEN], transmit_ts: u64)
    ensures
        final(resp)@ == old(resp)@.take(40) + be_bytes(transmit_ts as int, 8),
{
    broadcast use lemma_be_bytes_len;
    put_be(resp, 40, transmit_ts, 8);
    assert(resp@ =~= old(resp)@.take(40) + be_bytes(transmit_ts as int, 8));
}

/// The answer to a client that asks too often: leap indicator 3, the version of
/// the request, server mode, stratum 0, the code `RATE` and the transmit
/// timestamp of the request. Everything else is zero.
pub open spec fn kod_response(req: Seq<u8>, version: u8) -> Seq<u8> {
    seq![(192 + version % 8 * 8 + 4) as u8] + be_bytes(0, 11) + seq![0x52u8, 0x41, 0x54, 0x45]
        + be_bytes(0, 8) + req.subrange(40, 48) + be_bytes(0, 16)
}

/// Build the answer to a client that asks too often.
pub fn build_kod_response(req: &[u8; NTP_PACKET_LEN], version: u8) -> (resp: [u8; NTP_PACKET_LEN])
    ensures
        resp@ == kod_response(req@, version),
{
    broadcast use lemma_be_bytes_len;
    let mut resp: [u8; NTP_PACKET_LEN] = [0; NTP_PACKET_LEN];
    resp[0] = 192 + version % 8 * 8 + 4;
    put_be(&mut resp, 1, 0, 11);
    put_be(&mut resp, 12, 0x52415445, 4);
    proof {
        reveal_with_fuel(be_bytes, 5);
    }
    put_be(&mut resp, 16, 0, 8);
    put_eight(&mut resp, 24, req, 40);
    put_be(&mut resp, 32, 0, 16);
    assert(resp@ =~= kod_response(req@, version));
    resp
}

/// The number that a row of bytes stands for, most significant byte first.
pub open spec fn be_value(bytes: Seq<u8>) -> int
    decreases bytes.len(),
{
    if bytes.len() == 0 {
        0
    } else {
        be_value(bytes.drop_last()) * 256 + bytes.last()
    }
}

/// Reading four or eight bytes back gives the number that was written.
pub proof fn law_bytes_round_trip(v: u64, w: u32)
    ensures
        be_value(be_bytes(v as int, 8)) == v,
        be_value(be_bytes(w as int, 4)) == w,
{
    lemma_be_round_trip(v as int, 8);
    lemma_be_round_trip(w as int, 4);
    assert(vstd::arithmetic::power::pow(256, 8) == 0x1_0000_0000_0000_0000 && vstd::arithmetic::power::pow(
        256,
        4,
    ) == 0x1_0000_0000) by {
        reveal_with_fuel(vstd::arithmetic::power::pow, 9);
    }
}

/// Reading `n` bytes back gives a number that takes no more than `n` bytes.
proof fn lemma_be_round_trip(v: int, n: nat)
    requires
        0 <= v,
    ensures
        v < vstd::arithmetic::power::pow(256, n) ==> be_value(be_bytes(v, n)) == v,
    decreases n,
{
    reveal_with_fuel(vstd::arithmetic::power::pow, 2);
    if n > 0 {
        lemma_be_round_trip(v / 256, (n - 1) as nat);
        assert(be_bytes(v, n).drop_last() == be_bytes(v / 256, (n - 1) as nat));
        if v < vstd::arithmetic::power::pow(256, n) {
            let p = vstd::arithmetic::power::pow(256, (n - 1) as nat);
            assert(vstd::arithmetic::power::pow(256, n) == 256 * p);
            assert(v / 256 < p);
        }
    }
}

/// A response and a kiss of death carry the transmit timestamp of the request as
/// their originate timestamp, before and after the transmit timestamp is put in.
pub proof fn law_originate_echoes_request(
    req: Seq<u8>,
    dp: DisciplineParams,
    receive_ts: u64,
    transmit_ts: u64,
    version: u8,
)
    requires
        req.len() == 48,
    ensures
        response(req, dp, receive_ts).subrange(24, 32) == req.subrange(40, 48),
        (response(req, dp, receive_ts).take(40) + be_bytes(transmit_ts as int, 8)).subrange(24, 32)
            == req.subrange(40, 48),
        kod_response(req, version).subrange(24, 32) == req.subrange(40, 48),
{
    broadcast use lemma_be_bytes_len;
    assert(response(req, dp, receive_ts).subrange(24, 32) =~= req.subrange(40, 48));
    assert((response(req, dp, receive_ts).take(40) + be_bytes(transmit_ts as int, 8)).subrange(
        24,
        32,
    ) =~= req.subrange(40, 48));
    assert(kod_response(req, version).subrange(24, 32) =~= req.subrange(40, 48));
}

/// Reference, receive and transmit timestamp stand where clients look for them.
/// The reference timestamp of a response without good time is zero.
pub proof fn law_timestamp_fields(
    req: Seq<u8>,
    dp: DisciplineParams,
    receive_ts: u64,
    transmit_ts: u64,
)
    requires
        req.len() == 48,
    ensures
        be_value(response(req, dp, receive_ts).subrange(16, 24)) == if dp.stratum == 1 {
            dp.ref_ts
        } else {
            0
        },
        be_value(response(req, dp, receive_ts).subrange(32, 40)) == receive_ts,
        be_value(
            (response(req, dp, receive_ts).take(40) + be_bytes(transmit_ts as int, 8)).subrange(
                40,
                48,
            ),
        ) == transmit_ts,
{
    broadcast use lemma_be_bytes_len;
    let resp = response(req, dp, receive_ts);
    let reference: u64 = if dp.stratum == 1 {
        dp.ref_ts
    } else {
        0
    };
    law_bytes_round_trip(reference, 0);
    law_bytes_round_trip(receive_ts, 0);
    law_bytes_round_trip(transmit_ts, 0);
    assert(resp.subrange(16, 24) =~= be_bytes(reference as int, 8));
    assert(resp.subrange(32, 40) =~= be_bytes(receive_ts as int, 8));
    assert((resp.take(40) + be_bytes(transmit_ts as int, 8)).subrange(40, 48) =~= be_bytes(
        transmit_ts as int,
        8,
    ));
}

/// Every response is in server mode, has the leap indicator and stratum of the
/// discipline state and mirrors versions 1 to 4. A kiss of death has leap
/// indicator 3 and stratum 0, which no other response has.
pub proof fn law_first_bytes(req: Seq<u8>, dp: DisciplineParams, receive_ts: u64, version: u8)
    requires
        req.len() == 48,
        dp.leap <= 3,
        version <= 7,
    ensures
        response(req, dp, receive_ts)[0] % 8 == 4,
        response(req, dp, receive_ts)[0] / 64 == dp.leap,
        version_of(response(req, dp, receive_ts)[0]) == answer_version(version_of(req[0])),
        response(req, dp, receive_ts)[1] == dp.stratum,
        kod_response(req, version)[0] % 8 == 4,
        kod_response(req, version)[0] / 64 == 3,
        version_of(kod_response(req, version)[0]) == version,
        kod_response(req, version)[1] == 0,
{
    broadcast use lemma_be_bytes_len;
    let r0 = response(req, dp, receive_ts)[0];
    assert(r0 == (dp.leap % 4) * 64 + answer_version(version_of(req[0])) * 8 + 4);
    let k0 = kod_response(req, version)[0];
    assert(k0 == 192 + version * 8 + 4);
    reveal_with_fuel(be_bytes, 12);
}

/// Numbers are sent with their most significant byte first.
pub proof fn law_most_significant_byte_first(v: u64, w: u32)
    ensures
        ({
            let b = be_bytes(v as int, 8);
            let c = be_bytes(w as int, 4);
            &&& b.len() == 8
            &&& c.len() == 4
            &&& w == 0x100_0000 * c[0] + 0x1_0000 * c[1] + 0x100 * c[2] + c[3]
            &&& v == 0x1_0000_0000 * (0x100_0000 * b[0] + 0x1_0000 * b[1] + 0x100 * b[2] + b[3])
                + 0x100_0000 * b[4] + 0x1_0000 * b[5] + 0x100 * b[6] + b[7]
        }),
{
    reveal_with_fuel(be_bytes, 9);
}

/// A row of bytes stands for the number that has them as its digits to the base 256.
pub proof fn law_value_of_bytes(s: Seq<u8>, last: u8)
    ensures
        be_value(Seq::<u8>::empty()) == 0,
        be_value(s.push(last)) == 256 * be_value(s) + last,
{
    assert(s.push(last).drop_last() == s);
}

/// The other fields of a response: the version of the request if it is 1 to 4 and
/// otherwise 4, its poll interval, the precision as a signed byte, no root delay, the root
/// dispersion, and the name of the source.
pub proof fn law_response_fields(req: Seq<u8>, dp: DisciplineParams, receive_ts: u64)
    requires
        req.len() == 48,
    ensures
        ({
            let resp = response(req, dp, receive_ts);
            let asked = req[0] as int / 8 % 8;
            &&& resp.len() == 48
            &&& resp[0] as int / 8 % 8 == if 1 <= asked <= 4 {
                asked
            } else {
                4
            }
            &&& resp[2] == req[2]
            &&& resp[3] == if dp.precision < 0 {
                256 + dp.precision
            } else {
                dp.precision as int
            }
            &&& resp[4] == 0 && resp[5] == 0 && resp[6] == 0 && resp[7] == 0
            &&& dp.root_disp_short == 0x100_0000 * resp[8] + 0x1_0000 * resp[9] + 0x100 * resp[10]
                + resp[11]
            &&& dp.stratum == 1 ==> resp[12] == 'G' as int && resp[13] == 'P' as int && resp[14]
                == 'S' as int && resp[15] == 0
            &&& dp.stratum != 1 ==> resp[12] == 'I' as int && resp[13] == 'N' as int && resp[14]
                == 'I' as int && resp[15] == 'T' as int
            &&& forall|i: int| 40 <= i < 48 ==> resp[i] == 0
        }),
{
    broadcast use lemma_be_bytes_len;
    let resp = response(req, dp, receive_ts);
    law_most_significant_byte_first(0, 0);
    law_most_significant_byte_first(0, dp.root_disp_short);
    let zero = be_bytes(0, 4);
    let disp = be_bytes(dp.root_disp_short as int, 4);
    assert(resp[0] == (dp.leap % 4) * 64 + answer_version(version_of(req[0])) * 8 + 4);
    assert(resp[4] == zero[0] && resp[5] == zero[1] && resp[6] == zero[2] && resp[7] == zero[3]);
    assert(resp[8] == disp[0] && resp[9] == disp[1] && resp[10] == disp[2] && resp[11] == disp[3]);
    let id = reference_id(dp.stratum);
    assert(resp[12] == id[0] && resp[13] == id[1] && resp[14] == id[2] && resp[15] == id[3]);
    lemma_zero_bytes(8);
    assert forall|i: int| 40 <= i < 48 implies resp[i] == 0 by {
        assert(resp[i] == be_bytes(0, 8)[i - 40]);
    }
}

/// What is written over a row of bytes stands there, and the rest stays.
pub proof fn law_bytes_are_overwritten(buf: Seq<u8>, at: int, bytes: Seq<u8>, i: int)
    requires
        0 <= at,
        at + bytes.len() <= buf.len(),
        0 <= i < buf.len(),
    ensures
        overwritten(buf, at, bytes).len() == buf.len(),
        overwritten(buf, at, bytes).subrange(at, at + bytes.len()) == bytes,
        i < at || i >= at + bytes.len() ==> overwritten(buf, at, bytes)[i] == buf[i],
{
    assert(overwritten(buf, at, bytes).subrange(at, at + bytes.len()) =~= bytes);
}

/// A kiss of death has the code `RATE`, repeats the version of the request, and is zero
/// but for that, its first byte and the timestamp of the request.
pub proof fn law_kiss_of_death_fields(req: Seq<u8>, version: u8)
    requires
        req.len() == 48,
    ensures
        ({
            let resp = kod_response(req, version);
            &&& resp.len() == 48
            &&& resp[0] == 192 + 8 * (version as int % 8) + 4
            &&& resp[12] == 'R' as int && resp[13] == 'A' as int && resp[14] == 'T' as int
                && resp[15] == 'E' as int
            &&& forall|i: int|
                1 <= i < 12 || 16 <= i < 24 || 32 <= i < 48 ==> #[trigger] resp[i] == 0
            &&& forall|i: int| 24 <= i < 32 ==> #[trigger] resp[i] == req[i + 16]
        }),
{
    broadcast use lemma_be_bytes_len;
    let resp = kod_response(req, version);
    lemma_zero_bytes(11);
    lemma_zero_bytes(8);
    lemma_zero_bytes(16);
    assert forall|i: int| 1 <= i < 12 || 16 <= i < 24 || 32 <= i < 48 implies #[trigger] resp[i]
        == 0 by {
        if i < 12 {
            assert(resp[i] == be_bytes(0, 11)[i - 1]);
        } else if i < 24 {
            assert(resp[i] == be_bytes(0, 8)[i - 16]);
        } else {
            assert(resp[i] == be_bytes(0, 16)[i - 32]);
        }
    }
    assert forall|i: int| 24 <= i < 32 implies #[trigger] resp[i] == req[i + 16] by {
        assert(resp[i] == req.subrange(40, 48)[i - 24]);
    }
}

/// Zero is sent as zeros.
proof fn lemma_zero_bytes(n: nat)
    ensures
        forall|i: int| 0 <= i < n ==> #[trigger] be_bytes(0, n)[i] == 0,
    decreases n,
{
    broadcast use lemma_be_bytes_len;
    if n > 0 {
        lemma_zero_bytes((n - 1) as nat);
        let less = be_bytes(0, (n - 1) as nat);
        assert forall|i: int| 0 <= i < n implies #[trigger] be_bytes(0, n)[i] == 0 by {
            if i < n - 1 {
                assert(be_bytes(0, n)[i] == less[i]);
            }
        }
    }
}

} // verus!
