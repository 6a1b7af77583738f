//! Mode-6 control messages, the subset that `ntpq` asks for.
//!
//! A response is a header of twelve bytes, a payload and zeros that fill it up to
//! a multiple of four bytes. READSTAT answers with the one association there is,
//! READVAR with the variables of the system or of that association as text.

use super::packet::DisciplineParams;
use crate::figures;
use crate::text;
use vstd::prelude::*;
use vstd::utf8::encode_utf8;

verus! {

/// Length of the header of a control message.
pub const NTP_CONTROL_HEADER_LEN: usize = 12;

/// Operation code of a request for status words.
pub const MODE6_OPCODE_READSTAT: u8 = 1;

/// Operation code of a request for variables.
pub const MODE6_OPCODE_READVAR: u8 = 2;

/// Identifier of the one association.
pub const MODE6_ASSOC_ID: u16 = 1;

/// Picoseconds in one microsecond.
pub const PICOS_PER_MICRO: u128 = 1_000_000;

/// Picoseconds in one millisecond.
pub const PICOS_PER_MILLI: u128 = 1_000_000_000;

/// Servo measurements that control messages report.
#[derive(Clone, Copy, Debug)]
pub struct ServoMetrics {
    /// Phase error of the last PPS interval in microseconds.
    pub pps_offset_us: i32,
    /// Smoothed size of the phase error in picoseconds.
    pub pps_jitter_ps: u64,
    /// Smoothed time from a request to its answer in picoseconds.
    pub proc_delay_ps: u128,
    /// What the oscillator is fast by, in parts per billion.
    pub freq_ppb: i32,
}

/// A timestamp as `0x`, eight hexadecimal digits of seconds, a point and eight
/// hexadecimal digits of fraction.
pub open spec fn timestamp_text(ts: u64) -> Seq<char> {
    "0x"@ + text::padded(ts as int / 0x1_0000_0000, 16, 8) + "."@ + text::padded(ts as int, 16, 8)
}

/// Write a timestamp in hexadecimal.
pub fn ntp_ts_to_mode6(ts: u64) -> (r: String)
    ensures
        r@ == timestamp_text(ts),
{
    let mut out = "0x".to_owned();
    text::push_padded(&mut out, ts / 0x1_0000_0000, 16, 8);
    out.append(".");
    text::push_padded(&mut out, ts, 16, 8);
    out
}

/// A leap indicator as two binary digits.
pub open spec fn leap_text(leap: u8) -> Seq<char> {
    if leap == 0 {
        "00"@
    } else if leap == 1 {
        "01"@
    } else if leap == 2 {
        "10"@
    } else {
        "11"@
    }
}

/// Write a leap indicator as two binary digits.
fn leap_str(leap: u8) -> (r: &'static str)
    ensures
        r@ == leap_text(leap),
{
    if leap == 0 {
        "00"
    } else if leap == 1 {
        "01"
    } else if leap == 2 {
        "10"
    } else {
        "11"
    }
}

/// The thousandths of a millisecond that are shown for a duration, which counts as a
/// microsecond at least.
pub open spec fn shown_us(ps: int) -> int {
    figures::double_places(
        if ps < PICOS_PER_MICRO {
            PICOS_PER_MICRO as int
        } else {
            ps
        },
        PICOS_PER_MILLI as int,
        1000,
    )
}

/// Find the thousandths of a millisecond that are shown for a duration.
fn show_us(ps: u128) -> (r: u128)
    requires
        ps < u128::MAX,
    ensures
        r == shown_us(ps as int),
{
    figures::round_double(
        if ps < PICOS_PER_MICRO {
            PICOS_PER_MICRO
        } else {
            ps
        },
        PICOS_PER_MILLI,
        1000,
    )
}

/// The size of a number.
pub open spec fn magnitude(v: int) -> int {
    if v < 0 {
        -v
    } else {
        v
    }
}

/// The sign that is written out in front of what is not below zero.
pub open spec fn plus_sign(v: int) -> Seq<char> {
    if v >= 0 {
        "+"@
    } else {
        ""@
    }
}

/// The system variables.
pub open spec fn system_vars(dp: DisciplineParams, m: ServoMetrics) -> Seq<char> {
    if dp.stratum == 1 {
        "stratum="@ + text::dec(dp.stratum as int) + ",leap="@ + leap_text(dp.leap)
            + ",precision="@ + text::signed_dec(dp.precision as int)
            + ",rootdelay=0.000,rootdisp="@ + text::thousandths(dp.root_disp_us as int)
            + ",refid=GPS,reftime="@ + timestamp_text(dp.ref_ts) + ",clock="@ + timestamp_text(
            dp.current_ts,
        ) + ",offset="@ + text::signed_thousandths(m.pps_offset_us as int) + ",frequency="@
            + plus_sign(m.freq_ppb as int) + text::signed_thousandths(m.freq_ppb as int)
            + ",sys_jitter="@ + text::thousandths(shown_us(m.pps_jitter_ps as int))
            + ",clk_jitter="@ + text::thousandths(shown_us(m.pps_jitter_ps as int))
            + ",clk_wander="@ + text::thousandths(magnitude(m.freq_ppb as int))
            + ",tc=7,mintc=3,peer=1,system=\"rust_gps_ntp\""@
    } else {
        "stratum=16,leap=11,precision="@ + text::signed_dec(dp.precision as int)
            + ",rootdelay=0.000,rootdisp="@ + text::thousandths(dp.root_disp_us as int)
            + ",refid=INIT,reftime="@ + timestamp_text(dp.ref_ts) + ",clock="@ + timestamp_text(
            dp.current_ts,
        )
            + ",offset=0.000,frequency=+0.000,sys_jitter=0.000,clk_jitter=0.000,clk_wander=0.000"@
            + ",tc=7,mintc=3,peer=0,system=\"rust_gps_ntp\""@
    }
}

/// Write the system variables.
fn write_system_vars(dp: &DisciplineParams, m: &ServoMetrics) -> (r: String)
    ensures
        r@ == system_vars(*dp, *m),
{
    if dp.stratum == 1 {
        let jitter: u128 = show_us(m.pps_jitter_ps as u128);
        let mut out = "stratum=".to_owned();
        text::push_dec(&mut out, dp.stratum as u128);
        out.append(",leap=");
        out.append(leap_str(dp.leap));
        out.append(",precision=");
        text::push_signed_dec(&mut out, dp.precision as i64);
        out.append(",rootdelay=0.000,rootdisp=");
        text::push_thousandths(&mut out, dp.root_disp_us as u128);
        out.append(",refid=GPS,reftime=");
        out.append(ntp_ts_to_mode6(dp.ref_ts).as_str());
        out.append(",clock=");
        out.append(ntp_ts_to_mode6(dp.current_ts).as_str());
        out.append(",offset=");
        text::push_signed_thousandths(&mut out, m.pps_offset_us as i64);
        out.append(",frequency=");
        out.append(if m.freq_ppb >= 0 {
            "+"
        } else {
            ""
        });
        text::push_signed_thousandths(&mut out, m.freq_ppb as i64);
        out.append(",sys_jitter=");
        text::push_thousandths(&mut out, jitter);
        out.append(",clk_jitter=");
        text::push_thousandths(&mut out, jitter);
        out.append(",clk_wander=");
        let wander: i64 = if m.freq_ppb < 0 {
            -(m.freq_ppb as i64)
        } else {
            m.freq_ppb as i64
        };
        text::push_thousandths(&mut out, wander as u128);
        out.append(",tc=7,mintc=3,peer=1,system=\"rust_gps_ntp\"");
        out
    } else {
        let mut out = "stratum=16,leap=11,precision=".to_owned();
        text::push_signed_dec(&mut out, dp.precision as i64);
        out.append(",rootdelay=0.000,rootdisp=");
        text::push_thousandths(&mut out, dp.root_disp_us as u128);
        out.append(",refid=INIT,reftime=");
        out.append(ntp_ts_to_mode6(dp.ref_ts).as_str());
        out.append(",clock=");
        out.append(ntp_ts_to_mode6(dp.current_ts).as_str());
        out.append(
            ",offset=0.000,frequency=+0.000,sys_jitter=0.000,clk_jitter=0.000,clk_wander=0.000",
        );
        out.append(",tc=7,mintc=3,peer=0,system=\"rust_gps_ntp\"");
        out
    }
}

/// The variables of the association.
pub open spec fn peer_vars(dp: DisciplineParams, m: ServoMetrics) -> Seq<char> {
    if dp.stratum == 1 {
        "srcadr=GPS,srcport=123,refid=GPS,stratum="@ + text::dec(dp.stratum as int) + ",leap="@
            + leap_text(dp.leap) + ",hmode=3,pmode=4,hpoll=6,ppoll=6,reach=255,delay="@
            + text::thousandths(shown_us(m.proc_delay_ps as int)) + ",offset="@
            + text::signed_thousandths(m.pps_offset_us as int) + ",jitter="@ + text::thousandths(
            shown_us(m.pps_jitter_ps as int),
        ) + ",dispersion="@ + text::thousandths(dp.root_disp_us as int)
            + ",xleave=0.000,filtdelay="@ + text::thousandths(shown_us(m.proc_delay_ps as int))
            + ",filtoffset="@ + text::signed_thousandths(m.pps_offset_us as int) + ",filtdisp="@
            + text::thousandths(shown_us(m.pps_jitter_ps as int))
    } else {
        "srcadr=INIT,srcport=123,refid=INIT,stratum=16,leap=11,hmode=3,pmode=4,hpoll=6,ppoll=6"@
            + ",reach=0,delay=0.001,offset=0.000,jitter=0.000,dispersion=5000.000,xleave=0.000"@
            + ",filtdelay=0.001,filtoffset=0.000,filtdisp=5000.000"@
    }
}

/// Write the variables of the association.
fn write_peer_vars(dp: &DisciplineParams, m: &ServoMetrics) -> (r: String)
    requires
        m.proc_delay_ps < u128::MAX,
    ensures
        r@ == peer_vars(*dp, *m),
{
    if dp.stratum == 1 {
        let jitter: u128 = show_us(m.pps_jitter_ps as u128);
        let delay: u128 = show_us(m.proc_delay_ps);
        let mut out = "srcadr=GPS,srcport=123,refid=GPS,stratum=".to_owned();
        text::push_dec(&mut out, dp.stratum as u128);
        out.append(",leap=");
        out.append(leap_str(dp.leap));
        out.append(",hmode=3,pmode=4,hpoll=6,ppoll=6,reach=255,delay=");
        text::push_thousandths(&mut out, delay);
        out.append(",offset=");
        text::push_signed_thousandths(&mut out, m.pps_offset_us as i64);
        out.append(",jitter=");
        text::push_thousandths(&mut out, jitter);
        out.append(",dispersion=");
        text::push_thousandths(&mut out, dp.root_disp_us as u128);
        out.append(",xleave=0.000,filtdelay=");
        text::push_thousandths(&mut out, delay);
        out.append(",filtoffset=");
        text::push_signed_thousandths(&mut out, m.pps_offset_us as i64);
        out.append(",filtdisp=");
        text::push_thousandths(&mut out, jitter);
        out
    } else {
        let mut out =
            "srcadr=INIT,srcport=123,refid=INIT,stratum=16,leap=11,hmode=3,pmode=4,hpoll=6,ppoll=6".to_owned();
        out.append(
            ",reach=0,delay=0.001,offset=0.000,jitter=0.000,dispersion=5000.000,xleave=0.000",
        );
        out.append(",filtdelay=0.001,filtoffset=0.000,filtdisp=5000.000");
        out
    }
}

/// The association that a request names.
pub open spec fn assoc_of(req: Seq<u8>) -> int {
    req[6] * 256 + req[7]
}

/// What a response carries behind its header.
pub open spec fn payload(req: Seq<u8>, dp: DisciplineParams, m: ServoMetrics) -> Seq<u8> {
    if req[1] % 32 == MODE6_OPCODE_READSTAT {
        seq![
            0u8,
            MODE6_ASSOC_ID as u8,
            if dp.stratum == 1 {
                0xD2u8
            } else {
                0x10u8
            },
            0u8,
        ]
    } else if req[1] % 32 == MODE6_OPCODE_READVAR {
        if assoc_of(req) == 0 {
            encode_utf8(system_vars(dp, m))
        } else if assoc_of(req) == MODE6_ASSOC_ID {
            encode_utf8(peer_vars(dp, m))
        } else {
            Seq::empty()
        }
    } else {
        Seq::empty()
    }
}

/// Number of payload bytes that a header can announce.
pub open spec fn payload_count(req: Seq<u8>, dp: DisciplineParams, m: ServoMetrics) -> nat {
    let n = payload(req, dp, m).len();
    if n > u16::MAX {
        u16::MAX as nat
    } else {
        n
    }
}

/// The first twelve bytes of a response: version and mode; response bit, error bit
/// and operation code; the sequence number of the request; the system status word
/// of leap indicator and clock source; the association of the request; an offset
/// of zero; and the length of the payload.
pub open spec fn header(
    req: Seq<u8>,
    version: u8,
    dp: DisciplineParams,
    m: ServoMetrics,
) -> Seq<u8> {
    let opcode = req[1] % 32;
    let count = payload_count(req, dp, m) as int;
    seq![
        (super::packet::answer_version(version) * 8 + 6) as u8,
        (0x80 + (if opcode == MODE6_OPCODE_READSTAT || opcode == MODE6_OPCODE_READVAR {
            0int
        } else {
            0x40
        }) + opcode) as u8,
        req[2],
        req[3],
        ((dp.leap % 4) * 64 + (if dp.stratum == 1 {
            4int
        } else {
            0
        })) as u8,
        0,
        req[6],
        req[7],
        0,
        0,
        (count / 256) as u8,
        (count % 256) as u8,
    ]
}

/// The zeros that fill `n` bytes up to a multiple of four.
pub open spec fn padding(n: int) -> Seq<u8> {
    Seq::new(((4 - n % 4) % 4) as nat, |i: int| 0u8)
}

/// The response to a control request.
pub open spec fn control_response(
    req: Seq<u8>,
    version: u8,
    dp: DisciplineParams,
    m: ServoMetrics,
) -> Seq<u8> {
    let count = payload_count(req, dp, m) as int;
    header(req, version, dp, m) + payload(req, dp, m).take(count) + padding(count)
}

/// Write the payload of a response.
fn write_payload(req: &[u8], dp: &DisciplineParams, m: &ServoMetrics) -> (r: Vec<u8>)
    requires
        req@.len() >= 8,
        m.proc_delay_ps < u128::MAX,
    ensures
        r@ == payload(req@, *dp, *m),
{
    let opcode: u8 = req[1] % 32;
    let mut out: Vec<u8> = Vec::new();
    if opcode == MODE6_OPCODE_READSTAT {
        out.push(0);
        out.push(MODE6_ASSOC_ID as u8);
        out.push(if dp.stratum == 1 {
            0xD2
        } else {
            0x10
        });
        out.push(0);
        assert(out@ == payload(req@, *dp, *m));
    } else if opcode == MODE6_OPCODE_READVAR {
        let assoc: u32 = req[6] as u32 * 256 + req[7] as u32;
        if assoc == 0 {
            let vars = write_system_vars(dp, m);
            push_bytes(&mut out, vars.as_str().as_bytes());
        } else if assoc == MODE6_ASSOC_ID as u32 {
            let vars = write_peer_vars(dp, m);
            push_bytes(&mut out, vars.as_str().as_bytes());
        }
        assert(out@ == payload(req@, *dp, *m));
    }
    out
}

/// Append bytes.
fn push_bytes(out: &mut Vec<u8>, bytes: &[u8])
    ensures
        final(out)@ == old(out)@ + bytes@,
{
    let n: usize = bytes.len();
    let mut i: usize = 0;
    while i < n
        invariant
            n == bytes@.len(),
            i <= n,
            out@ == old(out)@ + bytes@.take(i as int),
        decreases n - i,
    {
        out.push(bytes[i]);
        i = i + 1;
        assert(out@ == old(out)@ + bytes@.take(i as int));
    }
    assert(bytes@.take(n as int) == bytes@);
}

/// Build the response to a control request.
pub fn build_mode6_response(
    req: &[u8],
    version: u8,
    dp: &DisciplineParams,
    m: &ServoMetrics,
) -> (resp: Vec<u8>)
    requires
        req@.len() >= 8,
        m.proc_delay_ps < u128::MAX,
    ensures
        resp@ == control_response(req@, version, *dp, *m),
{
    let opcode: u8 = req[1] % 32;
    let known: bool = opcode == MODE6_OPCODE_READSTAT || opcode == MODE6_OPCODE_READVAR;
    let body = write_payload(req, dp, m);
    let count: usize = if body.len() > u16::MAX as usize {
        u16::MAX as usize
    } else {
        body.len()
    };
    let mut resp: Vec<u8> = Vec::new();
    let vn: u8 = if 1 <= version && version <= 4 {
        version
    } else {
        4
    };
    resp.push(vn * 8 + 6);
    resp.push(0x80 + (if known {
        0
    } else {
        0x40
    }) + opcode);
    resp.push(req[2]);
    resp.push(req[3]);
    resp.push((dp.leap % 4) * 64 + (if dp.stratum == 1 {
        4
    } else {
        0
    }));
    resp.push(0);
    resp.push(req[6]);
    resp.push(req[7]);
    resp.push(0);
    resp.push(0);
    resp.push((count / 256) as u8);
    resp.push((count % 256) as u8);
    assert(resp@ == header(req@, version, *dp, *m));
    let mut i: usize = 0;
    while i < count
        invariant
            i <= count <= body@.len(),
            resp@ == header(req@, version, *dp, *m) + body@.take(i as int),
        decreases count - i,
    {
        resp.push(body[i]);
        i = i + 1;
        assert(resp@ == header(req@, version, *dp, *m) + body@.take(i as int));
    }
    let ghost unpadded = resp@;
    let mut padded: usize = count;
    while padded % 4 != 0
        invariant
            count <= padded <= count + (4 - count % 4) % 4,
            count <= u16::MAX,
            resp@ == unpadded + padding(count as int).take(padded - count),
        decreases count + 4 - padded,
    {
        resp.push(0);
        padded = padded + 1;
        assert(resp@ == unpadded + padding(count as int).take(padded - count));
    }
    assert(padding(count as int).take(padded - count) == padding(count as int));
    resp
}

/// A response has a length that is a multiple of four, announces its payload, and
/// is filled up with zeros.
pub proof fn law_framing(req: Seq<u8>, version: u8, dp: DisciplineParams, m: ServoMetrics)
    ensures
        ({
            let resp = control_response(req, version, dp, m);
            let count = payload_count(req, dp, m) as int;
            &&& resp.len() % 4 == 0
            &&& resp[10] * 256 + resp[11] == count
            &&& resp.len() >= NTP_CONTROL_HEADER_LEN + count
            &&& resp.subrange(12, 12 + count) == payload(req, dp, m).take(count)
            &&& forall|i: int| 12 + count <= i < resp.len() ==> resp[i] == 0
        }),
{
    let resp = control_response(req, version, dp, m);
    let count = payload_count(req, dp, m) as int;
    assert(resp.subrange(12, 12 + count) =~= payload(req, dp, m).take(count));
    assert(resp[10] == (count / 256) as u8);
    assert(resp[11] == (count % 256) as u8);
}

/// A response has the response bit set and repeats operation code, sequence number
/// and association of the request. The error bit is set exactly for operation codes
/// that are not known.
pub proof fn law_echoes_request(req: Seq<u8>, version: u8, dp: DisciplineParams, m: ServoMetrics)
    ensures
        ({
            let resp = control_response(req, version, dp, m);
            let opcode = req[1] % 32;
            &&& resp[1] / 128 == 1
            &&& resp[1] / 64 % 2 == if opcode == MODE6_OPCODE_READSTAT || opcode
                == MODE6_OPCODE_READVAR {
                0int
            } else {
                1
            }
            &&& resp[1] % 32 == opcode
            &&& resp[2] == req[2] && resp[3] == req[3]
            &&& resp[6] == req[6] && resp[7] == req[7]
            &&& resp[0] % 8 == 6
        }),
{
    let resp = control_response(req, version, dp, m);
    let opcode = req[1] % 32;
    assert(resp[1] == 0x80 + (if opcode == MODE6_OPCODE_READSTAT || opcode
        == MODE6_OPCODE_READVAR {
        0int
    } else {
        0x40
    }) + opcode);
    assert(resp[0] == super::packet::answer_version(version) * 8 + 6);
    assert(resp[2] == header(req, version, dp, m)[2]);
    assert(resp[3] == header(req, version, dp, m)[3]);
    assert(resp[6] == header(req, version, dp, m)[6]);
    assert(resp[7] == header(req, version, dp, m)[7]);
}

/// An association or an operation code that is not known is answered with a header
/// alone.
pub proof fn law_unknown_is_header_only(
    req: Seq<u8>,
    version: u8,
    dp: DisciplineParams,
    m: ServoMetrics,
)
    requires
        req[1] % 32 != MODE6_OPCODE_READSTAT,
        req[1] % 32 == MODE6_OPCODE_READVAR ==> assoc_of(req) != 0 && assoc_of(req)
            != MODE6_ASSOC_ID,
    ensures
        control_response(req, version, dp, m) == header(req, version, dp, m),
        control_response(req, version, dp, m).len() == NTP_CONTROL_HEADER_LEN,
{
    assert(payload(req, dp, m) == Seq::<u8>::empty());
    assert(control_response(req, version, dp, m) =~= header(req, version, dp, m));
}

} // verus!
