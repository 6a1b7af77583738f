//! Reading the variables of control messages.
//!
//! The variables are pairs of a name and a value with an equals sign between them, and
//! the pairs have commas between them. A reader such as `ntpq` looks a value up by its
//! name.

use super::mode6::{self, ServoMetrics};
use super::packet::DisciplineParams;
use crate::figures;
use crate::text;
use vstd::prelude::*;

verus! {

/// The value of the first pair with a given name.
pub open spec fn find(pairs: Seq<Seq<char>>, name: Seq<char>) -> Option<Seq<char>>
    decreases pairs.len(),
{
    if pairs.len() == 0 {
        None
    } else if find(pairs.drop_last(), name) is Some {
        find(pairs.drop_last(), name)
    } else if text::begins_with(pairs.last(), name + seq!['=']) {
        Some(pairs.last().skip(name.len() as int + 1))
    } else {
        None
    }
}

/// The value of a variable.
pub open spec fn variable(vars: Seq<char>, name: Seq<char>) -> Option<Seq<char>> {
    find(text::fields(vars, ','), name)
}

/// A pair of a name and a value.
pub open spec fn pair(name: Seq<char>, value: Seq<char>) -> Seq<char> {
    name + seq!['='] + value
}

/// Whether a text can be a name or a value: it holds no comma, and as a name no equals
/// sign.
pub open spec fn is_word(s: Seq<char>) -> bool {
    !s.contains(',') && !s.contains('=')
}

/// A pair behind others is found by its name, unless one of them has the name too, and
/// does not stand in the way of others.
proof fn lemma_next_pair(vars: Seq<char>, name: Seq<char>, value: Seq<char>, wanted: Seq<char>)
    requires
        is_word(name),
        !value.contains(','),
        is_word(wanted),
    ensures
        variable(vars + seq![','] + pair(name, value), wanted) == if variable(vars, wanted) is Some {
            variable(vars, wanted)
        } else if name == wanted {
            Some(value)
        } else {
            None
        },
{
    let p = pair(name, value);
    lemma_one_pair(name, value, wanted);
    text::law_pieces_add_up(vars, p, ',');
    let fs = text::fields(vars, ',');
    text::law_one_piece(p, ',');
    assert(fs + seq![p] == fs.push(p));
    assert(fs.push(p).drop_last() == fs);
    assert(fs.push(p).last() == p);
}

/// A pair alone is found by its name.
proof fn lemma_one_pair(name: Seq<char>, value: Seq<char>, wanted: Seq<char>)
    requires
        is_word(name),
        !value.contains(','),
        is_word(wanted),
    ensures
        !pair(name, value).contains(','),
        text::begins_with(pair(name, value), wanted + seq!['=']) <==> name == wanted,
        pair(name, value).skip(name.len() as int + 1) == value,
        variable(pair(name, value), wanted) == if name == wanted {
            Some(value)
        } else {
            None
        },
{
    let p = pair(name, value);
    let head = wanted + seq!['='];
    assert forall|i: int| 0 <= i < p.len() implies p[i] != ',' by {
        if i < name.len() {
            assert(p[i] == name[i] && name.contains(name[i]));
        } else if i > name.len() {
            let k = i - name.len() as int - 1;
            assert(p[i] == value[k] && value.contains(value[k]));
        }
    }
    if text::begins_with(p, head) {
        let t = p.take(head.len() as int);
        assert(t[wanted.len() as int] == '=');
        assert(p[wanted.len() as int] == '=');
        assert(p[name.len() as int] == '=');
        if wanted.len() < name.len() {
            assert(p[wanted.len() as int] == name[wanted.len() as int]);
            assert(name.contains(name[wanted.len() as int]));
        }
        if wanted.len() > name.len() {
            assert(t[name.len() as int] == head[name.len() as int]);
            assert(head[name.len() as int] == wanted[name.len() as int]);
            assert(wanted.contains(wanted[name.len() as int]));
        }
        assert forall|i: int| 0 <= i < name.len() implies name[i] == wanted[i] by {
            assert(t[i] == p[i] && t[i] == head[i]);
        }
        assert(name =~= wanted);
    }
    if name == wanted {
        assert(p.take(head.len() as int) =~= head);
    }
    assert(p.skip(name.len() as int + 1) =~= value);
    text::law_one_piece(p, ',');
    assert(seq![p].drop_last() == Seq::<Seq<char>>::empty());
    reveal_with_fuel(find, 2);
}

/// Numbers as they are written hold no comma.
proof fn lemma_values_hold_no_comma(n: int, ts: u64, leap: u8)
    ensures
        n >= 0 ==> !text::dec(n).contains(','),
        !text::signed_dec(n).contains(','),
        n >= 0 ==> !text::thousandths(n).contains(','),
        !text::signed_thousandths(n).contains(','),
        !(mode6::plus_sign(n) + text::signed_thousandths(n)).contains(','),
        !mode6::timestamp_text(ts).contains(','),
        !mode6::leap_text(leap).contains(','),
{
    reveal_strlit("-");
    reveal_strlit("+");
    reveal_strlit("");
    reveal_strlit(".");
    reveal_strlit("0x");
    reveal_strlit("00");
    reveal_strlit("01");
    reveal_strlit("10");
    reveal_strlit("11");
    let size = if n < 0 {
        -n
    } else {
        n
    };
    text::law_decimal(size);
    text::law_decimal(size / 1000);
    text::law_fixed_width(size % 1000, 3);
    lemma_digits_hold_no_comma(text::dec(size));
    lemma_digits_hold_no_comma(text::dec(size / 1000));
    lemma_digits_hold_no_comma(text::padded(size % 1000, 10, 3));
    lemma_hex_holds_no_comma(ts as int / 0x1_0000_0000, 8);
    lemma_hex_holds_no_comma(ts as int, 8);
    lemma_joined(text::dec(size / 1000), "."@);
    lemma_joined(text::dec(size / 1000) + "."@, text::padded(size % 1000, 10, 3));
    lemma_joined("-"@, text::dec(size));
    lemma_joined("-"@, text::thousandths(size));
    lemma_joined(mode6::plus_sign(n), text::signed_thousandths(n));
    let high = text::padded(ts as int / 0x1_0000_0000, 16, 8);
    lemma_joined("0x"@, high);
    lemma_joined("0x"@ + high, "."@);
    lemma_joined("0x"@ + high + "."@, text::padded(ts as int, 16, 8));
}

/// Digits are no commas.
proof fn lemma_digits_hold_no_comma(s: Seq<char>)
    requires
        text::all_digits(s),
    ensures
        !s.contains(','),
{
    assert forall|i: int| 0 <= i < s.len() implies s[i] != ',' by {
        assert(text::is_digit(s[i]));
    }
}

/// Hexadecimal digits are no commas.
proof fn lemma_hex_holds_no_comma(n: int, width: nat)
    requires
        0 <= n,
    ensures
        !text::padded(n, 16, width).contains(','),
    decreases width,
{
    if width > 0 {
        let head = text::padded(n / 16, 16, (width - 1) as nat);
        lemma_hex_holds_no_comma(n / 16, (width - 1) as nat);
        let s = text::padded(n, 16, width);
        assert forall|i: int| 0 <= i < s.len() implies s[i] != ',' by {
            if i < head.len() {
                assert(s[i] == head[i] && head.contains(head[i]));
            }
        }
    }
}

/// Two texts without commas make one without commas.
proof fn lemma_joined(a: Seq<char>, b: Seq<char>)
    ensures
        !a.contains(',') && !b.contains(',') ==> !(a + b).contains(','),
{
    let s = a + b;
    if !a.contains(',') && !b.contains(',') {
        assert forall|i: int| 0 <= i < s.len() implies s[i] != ',' by {
            if i < a.len() {
                assert(s[i] == a[i] && a.contains(a[i]));
            } else {
                assert(s[i] == b[i - a.len()] && b.contains(b[i - a.len()]));
            }
        }
    }
}

/// A comma, a name, an equals sign and a value behind other pairs.
proof fn lemma_open(
    acc: Seq<char>,
    lit: Seq<char>,
    name: Seq<char>,
    value: Seq<char>,
    wanted: Seq<char>,
)
    requires
        lit == seq![','] + name + seq!['='],
        is_word(name),
        !value.contains(','),
        is_word(wanted),
    ensures
        variable(acc + lit + value, wanted) == if variable(acc, wanted) is Some {
            variable(acc, wanted)
        } else if wanted == name {
            Some(value)
        } else {
            None
        },
{
    assert(acc + lit + value =~= acc + seq![','] + pair(name, value));
    lemma_next_pair(acc, name, value, wanted);
}

/// The same with the value written out.
proof fn lemma_closed(
    acc: Seq<char>,
    lit: Seq<char>,
    name: Seq<char>,
    value: Seq<char>,
    wanted: Seq<char>,
)
    requires
        lit == seq![','] + name + seq!['='] + value,
        is_word(name),
        !value.contains(','),
        is_word(wanted),
    ensures
        variable(acc + lit, wanted) == if variable(acc, wanted) is Some {
            variable(acc, wanted)
        } else if wanted == name {
            Some(value)
        } else {
            None
        },
{
    assert(acc + lit =~= acc + seq![','] + pair(name, value));
    lemma_next_pair(acc, name, value, wanted);
}

/// The values of all variables hold no comma.
proof fn lemma_all_values(dp: DisciplineParams, m: ServoMetrics)
    ensures
        !text::dec(dp.stratum as int).contains(','),
        !mode6::leap_text(dp.leap).contains(','),
        !text::signed_dec(dp.precision as int).contains(','),
        !text::thousandths(dp.root_disp_us as int).contains(','),
        !mode6::timestamp_text(dp.ref_ts).contains(','),
        !mode6::timestamp_text(dp.current_ts).contains(','),
        !text::signed_thousandths(m.pps_offset_us as int).contains(','),
        !(mode6::plus_sign(m.freq_ppb as int) + text::signed_thousandths(m.freq_ppb as int))
            .contains(','),
        !text::thousandths(mode6::shown_us(m.pps_jitter_ps as int)).contains(','),
        !text::thousandths(mode6::shown_us(m.proc_delay_ps as int)).contains(','),
        !text::thousandths(mode6::magnitude(m.freq_ppb as int)).contains(','),
{
    lemma_values_hold_no_comma(dp.stratum as int, dp.ref_ts, dp.leap);
    lemma_values_hold_no_comma(dp.precision as int, dp.current_ts, dp.leap);
    lemma_values_hold_no_comma(dp.root_disp_us as int, 0, 0);
    lemma_values_hold_no_comma(m.pps_offset_us as int, 0, 0);
    lemma_values_hold_no_comma(m.freq_ppb as int, 0, 0);
    lemma_values_hold_no_comma(mode6::magnitude(m.freq_ppb as int), 0, 0);
    law_shown_duration(m.pps_jitter_ps as int);
    law_shown_duration(m.proc_delay_ps as int);
    lemma_values_hold_no_comma(mode6::shown_us(m.pps_jitter_ps as int), 0, 0);
    lemma_values_hold_no_comma(mode6::shown_us(m.proc_delay_ps as int), 0, 0);
}

/// A duration of up to a thousand seconds is shown as the nearest thousandth of a
/// millisecond, one shorter than a microsecond as a microsecond.
pub proof fn law_shown_duration(ps: int)
    requires
        0 <= ps,
    ensures
        mode6::shown_us(ps) >= 0,
        ps < 1_000_000 ==> mode6::shown_us(ps) == 1,
        1_000_000 <= ps <= 1_000_000_000_000_000 ==> -500_000 <= 1_000_000 * mode6::shown_us(ps)
            - ps <= 500_000,
{
    let n = if ps < 1_000_000 {
        1_000_000
    } else {
        ps
    };
    let d = 1_000_000_000int;
    figures::lemma_double_places(n, d, 1000);
    if n <= 1_000_000_000_000_000 {
        let scale = vstd::arithmetic::power2::pow2(figures::doublings(n, d)) as int;
        let off = figures::double_places(n, d, 1000) * d - 1000 * n;
        assert(scale >= 0x1_0000_0000) by (nonlinear_arith)
            requires
                n * scale >= d * 0x10_0000_0000_0000,
                n <= 1_000_000_000_000_000,
                d == 1_000_000_000,
                scale >= 1,
                n > 0,
        ;
        assert(-500_000_999 <= off <= 500_000_999) by (nonlinear_arith)
            requires
                2 * scale * off <= d * (scale + 1000),
                -2 * scale * off <= d * (scale + 1000),
                d == 1_000_000_000,
                scale >= 0x1_0000_0000,
        ;
    }
}

/// The system variables of a server with good time.
pub open spec fn synced_system(dp: DisciplineParams, m: ServoMetrics, name: Seq<char>) -> Option<Seq<char>> {
    if name == "stratum"@ {
        Some(text::dec(dp.stratum as int))
    } else if name == "leap"@ {
        Some(mode6::leap_text(dp.leap))
    } else if name == "precision"@ {
        Some(text::signed_dec(dp.precision as int))
    } else if name == "rootdelay"@ {
        Some("0.000"@)
    } else if name == "rootdisp"@ {
        Some(text::thousandths(dp.root_disp_us as int))
    } else if name == "refid"@ {
        Some("GPS"@)
    } else if name == "reftime"@ {
        Some(mode6::timestamp_text(dp.ref_ts))
    } else if name == "clock"@ {
        Some(mode6::timestamp_text(dp.current_ts))
    } else if name == "offset"@ {
        Some(text::signed_thousandths(m.pps_offset_us as int))
    } else if name == "frequency"@ {
        Some(mode6::plus_sign(m.freq_ppb as int) + text::signed_thousandths(m.freq_ppb as int))
    } else if name == "sys_jitter"@ {
        Some(text::thousandths(mode6::shown_us(m.pps_jitter_ps as int)))
    } else if name == "clk_jitter"@ {
        Some(text::thousandths(mode6::shown_us(m.pps_jitter_ps as int)))
    } else if name == "clk_wander"@ {
        Some(text::thousandths(mode6::magnitude(m.freq_ppb as int)))
    } else if name == "tc"@ {
        Some("7"@)
    } else if name == "mintc"@ {
        Some("3"@)
    } else if name == "peer"@ {
        Some("1"@)
    } else if name == "system"@ {
        Some("\"rust_gps_ntp\""@)
    } else {
        None
    }
}

/// Part of the variables.
proof fn lemma_system_synced_1(dp: DisciplineParams, m: ServoMetrics, wanted: Seq<char>)
    requires
        is_word(wanted),
    ensures
        variable("stratum="@ + text::dec(dp.stratum as int) + ",leap="@ + mode6::leap_text(dp.leap) + ",precision="@ + text::signed_dec(dp.precision as int) + ",rootdelay=0.000,rootdisp="@ + text::thousandths(dp.root_disp_us as int), wanted) == if wanted == "stratum"@ {
            Some(text::dec(dp.stratum as int))
        } else if wanted == "leap"@ {
            Some(mode6::leap_text(dp.leap))
        } else if wanted == "precision"@ {
            Some(text::signed_dec(dp.precision as int))
        } else if wanted == "rootdelay"@ {
            Some("0.000"@)
        } else if wanted == "rootdisp"@ {
            Some(text::thousandths(dp.root_disp_us as int))
        } else {
            None
        },
{
    lemma_all_values(dp, m);
    assert("stratum="@ == "stratum"@ + seq!['='] && is_word("stratum"@)) by {
        reveal_strlit("stratum=");
        reveal_strlit("stratum");
        assert("stratum="@ =~= "stratum"@ + seq!['=']);
    }
    lemma_one_pair("stratum"@, text::dec(dp.stratum as int), wanted);
    assert(",leap="@ == seq![','] + "leap"@ + seq!['='] && is_word("leap"@)) by {
        reveal_strlit(",leap=");
        reveal_strlit("leap");
        assert(",leap="@ =~= seq![','] + "leap"@ + seq!['=']);
    }
    lemma_open("stratum="@ + text::dec(dp.stratum as int), ",leap="@, "leap"@, mode6::leap_text(dp.leap), wanted);
    assert(",precision="@ == seq![','] + "precision"@ + seq!['='] && is_word("precision"@)) by {
        reveal_strlit(",precision=");
        reveal_strlit("precision");
        assert(",precision="@ =~= seq![','] + "precision"@ + seq!['=']);
    }
    lemma_open("stratum="@ + text::dec(dp.stratum as int) + ",leap="@ + mode6::leap_text(dp.leap), ",precision="@, "precision"@, text::signed_dec(dp.precision as int), wanted);
    assert(",rootdelay=0.000,rootdisp="@ == ",rootdelay=0.000"@ + ",rootdisp="@) by {
        reveal_strlit(",rootdelay=0.000,rootdisp=");
        reveal_strlit(",rootdelay=0.000");
        reveal_strlit(",rootdisp=");
        assert(",rootdelay=0.000,rootdisp="@ =~= ",rootdelay=0.000"@ + ",rootdisp="@);
    }
    assert(",rootdelay=0.000"@ == seq![','] + "rootdelay"@ + seq!['='] + "0.000"@ && is_word("rootdelay"@) && !"0.000"@.contains(',')) by {
        reveal_strlit(",rootdelay=0.000");
        reveal_strlit("rootdelay");
        reveal_strlit("0.000");
        assert(",rootdelay=0.000"@ =~= seq![','] + "rootdelay"@ + seq!['='] + "0.000"@);
    }
    lemma_closed("stratum="@ + text::dec(dp.stratum as int) + ",leap="@ + mode6::leap_text(dp.leap) + ",precision="@ + text::signed_dec(dp.precision as int), ",rootdelay=0.000"@, "rootdelay"@, "0.000"@, wanted);
    assert(",rootdisp="@ == seq![','] + "rootdisp"@ + seq!['='] && is_word("rootdisp"@)) by {
        reveal_strlit(",rootdisp=");
        reveal_strlit("rootdisp");
        assert(",rootdisp="@ =~= seq![','] + "rootdisp"@ + seq!['=']);
    }
    lemma_open("stratum="@ + text::dec(dp.stratum as int) + ",leap="@ + mode6::leap_text(dp.leap) + ",precision="@ + text::signed_dec(dp.precision as int) + ",rootdelay=0.000"@, ",rootdisp="@, "rootdisp"@, text::thousandths(dp.root_disp_us as int), wanted);
    assert("stratum="@ + text::dec(dp.stratum as int) + ",leap="@ + mode6::leap_text(dp.leap) + ",precision="@ + text::signed_dec(dp.precision as int) + ",rootdelay=0.000,rootdisp="@ + text::thousandths(dp.root_disp_us as int) =~= "stratum="@ + text::dec(dp.stratum as int) + ",leap="@ + mode6::leap_text(dp.leap) + ",precision="@ + text::signed_dec(dp.precision as int) + ",rootdelay=0.000"@ + ",rootdisp="@ + text::thousandths(dp.root_disp_us as int));
}

/// Part of the variables.
proof fn lemma_system_synced_2(acc: Seq<char>, dp: DisciplineParams, m: ServoMetrics, wanted: Seq<char>)
    requires
        is_word(wanted),
    ensures
        variable(acc + ",refid=GPS,reftime="@ + mode6::timestamp_text(dp.ref_ts) + ",clock="@ + mode6::timestamp_text(dp.current_ts) + ",offset="@ + text::signed_thousandths(m.pps_offset_us as int) + ",frequency="@ + mode6::plus_sign(m.freq_ppb as int) + text::signed_thousandths(m.freq_ppb as int), wanted) == if variable(acc, wanted) is Some {
            variable(acc, wanted)
        } else if wanted == "refid"@ {
            Some("GPS"@)
        } else if wanted == "reftime"@ {
            Some(mode6::timestamp_text(dp.ref_ts))
        } else if wanted == "clock"@ {
            Some(mode6::timestamp_text(dp.current_ts))
        } else if wanted == "offset"@ {
            Some(text::signed_thousandths(m.pps_offset_us as int))
        } else if wanted == "frequency"@ {
            Some(mode6::plus_sign(m.freq_ppb as int) + text::signed_thousandths(m.freq_ppb as int))
        } else {
            None
        },
{
    lemma_all_values(dp, m);
    assert(",refid=GPS,reftime="@ == ",refid=GPS"@ + ",reftime="@) by {
        reveal_strlit(",refid=GPS,reftime=");
        reveal_strlit(",refid=GPS");
        reveal_strlit(",reftime=");
        assert(",refid=GPS,reftime="@ =~= ",refid=GPS"@ + ",reftime="@);
    }
    assert(",refid=GPS"@ == seq![','] + "refid"@ + seq!['='] + "GPS"@ && is_word("refid"@) && !"GPS"@.contains(',')) by {
        reveal_strlit(",refid=GPS");
        reveal_strlit("refid");
        reveal_strlit("GPS");
        assert(",refid=GPS"@ =~= seq![','] + "refid"@ + seq!['='] + "GPS"@);
    }
    lemma_closed(acc, ",refid=GPS"@, "refid"@, "GPS"@, wanted);
    assert(",reftime="@ == seq![','] + "reftime"@ + seq!['='] && is_word("reftime"@)) by {
        reveal_strlit(",reftime=");
        reveal_strlit("reftime");
        assert(",reftime="@ =~= seq![','] + "reftime"@ + seq!['=']);
    }
    lemma_open(acc + ",refid=GPS"@, ",reftime="@, "reftime"@, mode6::timestamp_text(dp.ref_ts), wanted);
    assert(acc + ",refid=GPS,reftime="@ + mode6::timestamp_text(dp.ref_ts) =~= acc + ",refid=GPS"@ + ",reftime="@ + mode6::timestamp_text(dp.ref_ts));
    assert(",clock="@ == seq![','] + "clock"@ + seq!['='] && is_word("clock"@)) by {
        reveal_strlit(",clock=");
        reveal_strlit("clock");
        assert(",clock="@ =~= seq![','] + "clock"@ + seq!['=']);
    }
    lemma_open(acc + ",refid=GPS,reftime="@ + mode6::timestamp_text(dp.ref_ts), ",clock="@, "clock"@, mode6::timestamp_text(dp.current_ts), wanted);
    assert(",offset="@ == seq![','] + "offset"@ + seq!['='] && is_word("offset"@)) by {
        reveal_strlit(",offset=");
        reveal_strlit("offset");
        assert(",offset="@ =~= seq![','] + "offset"@ + seq!['=']);
    }
    lemma_open(acc + ",refid=GPS,reftime="@ + mode6::timestamp_text(dp.ref_ts) + ",clock="@ + mode6::timestamp_text(dp.current_ts), ",offset="@, "offset"@, text::signed_thousandths(m.pps_offset_us as int), wanted);
    assert(",frequency="@ == seq![','] + "frequency"@ + seq!['='] && is_word("frequency"@)) by {
        reveal_strlit(",frequency=");
        reveal_strlit("frequency");
        assert(",frequency="@ =~= seq![','] + "frequency"@ + seq!['=']);
    }
    lemma_open(acc + ",refid=GPS,reftime="@ + mode6::timestamp_text(dp.ref_ts) + ",clock="@ + mode6::timestamp_text(dp.current_ts) + ",offset="@ + text::signed_thousandths(m.pps_offset_us as int), ",frequency="@, "frequency"@, mode6::plus_sign(m.freq_ppb as int) + text::signed_thousandths(m.freq_ppb as int), wanted);
    assert(acc + ",refid=GPS,reftime="@ + mode6::timestamp_text(dp.ref_ts) + ",clock="@ + mode6::timestamp_text(dp.current_ts) + ",offset="@ + text::signed_thousandths(m.pps_offset_us as int) + ",frequency="@ + (mode6::plus_sign(m.freq_ppb as int) + text::signed_thousandths(m.freq_ppb as int)) =~= acc + ",refid=GPS,reftime="@ + mode6::timestamp_text(dp.ref_ts) + ",clock="@ + mode6::timestamp_text(dp.current_ts) + ",offset="@ + text::signed_thousandths(m.pps_offset_us as int) + ",frequency="@ + mode6::plus_sign(m.freq_ppb as int) + text::signed_thousandths(m.freq_ppb as int));
}

/// Part of the variables.
proof fn lemma_system_synced_3(acc: Seq<char>, dp: DisciplineParams, m: ServoMetrics, wanted: Seq<char>)
    requires
        is_word(wanted),
    ensures
        variable(acc + ",sys_jitter="@ + text::thousandths(mode6::shown_us(m.pps_jitter_ps as int)) + ",clk_jitter="@ + text::thousandths(mode6::shown_us(m.pps_jitter_ps as int)) + ",clk_wander="@ + text::thousandths(mode6::magnitude(m.freq_ppb as int)), wanted) == if variable(acc, wanted) is Some {
            variable(acc, wanted)
        } else if wanted == "sys_jitter"@ {
            Some(text::thousandths(mode6::shown_us(m.pps_jitter_ps as int)))
        } else if wanted == "clk_jitter"@ {
            Some(text::thousandths(mode6::shown_us(m.pps_jitter_ps as int)))
        } else if wanted == "clk_wander"@ {
            Some(text::thousandths(mode6::magnitude(m.freq_ppb as int)))
        } else {
            None
        },
{
    lemma_all_values(dp, m);
    assert(",sys_jitter="@ == seq![','] + "sys_jitter"@ + seq!['='] && is_word("sys_jitter"@)) by {
        reveal_strlit(",sys_jitter=");
        reveal_strlit("sys_jitter");
        assert(",sys_jitter="@ =~= seq![','] + "sys_jitter"@ + seq!['=']);
    }
    lemma_open(acc, ",sys_jitter="@, "sys_jitter"@, text::thousandths(mode6::shown_us(m.pps_jitter_ps as int)), wanted);
    assert(",clk_jitter="@ == seq![','] + "clk_jitter"@ + seq!['='] && is_word("clk_jitter"@)) by {
        reveal_strlit(",clk_jitter=");
        reveal_strlit("clk_jitter");
        assert(",clk_jitter="@ =~= seq![','] + "clk_jitter"@ + seq!['=']);
    }
    lemma_open(acc + ",sys_jitter="@ + text::thousandths(mode6::shown_us(m.pps_jitter_ps as int)), ",clk_jitter="@, "clk_jitter"@, text::thousandths(mode6::shown_us(m.pps_jitter_ps as int)), wanted);
    assert(",clk_wander="@ == seq![','] + "clk_wander"@ + seq!['='] && is_word("clk_wander"@)) by {
        reveal_strlit(",clk_wander=");
        reveal_strlit("clk_wander");
        assert(",clk_wander="@ =~= seq![','] + "clk_wander"@ + seq!['=']);
    }
    lemma_open(acc + ",sys_jitter="@ + text::thousandths(mode6::shown_us(m.pps_jitter_ps as int)) + ",clk_jitter="@ + text::thousandths(mode6::shown_us(m.pps_jitter_ps as int)), ",clk_wander="@, "clk_wander"@, text::thousandths(mode6::magnitude(m.freq_ppb as int)), wanted);
}

/// Part of the variables.
proof fn lemma_system_synced_4(acc: Seq<char>, dp: DisciplineParams, m: ServoMetrics, wanted: Seq<char>)
    requires
        is_word(wanted),
    ensures
        variable(acc + ",tc=7,mintc=3,peer=1,system=\"rust_gps_ntp\""@, wanted) == if variable(acc, wanted) is Some {
            variable(acc, wanted)
        } else if wanted == "tc"@ {
            Some("7"@)
        } else if wanted == "mintc"@ {
            Some("3"@)
        } else if wanted == "peer"@ {
            Some("1"@)
        } else if wanted == "system"@ {
            Some("\"rust_gps_ntp\""@)
        } else {
            None
        },
{
    lemma_all_values(dp, m);
    assert(",tc=7,mintc=3,peer=1,system=\"rust_gps_ntp\""@ == ",tc=7"@ + ",mintc=3"@ + ",peer=1"@ + ",system=\"rust_gps_ntp\""@) by {
        reveal_strlit(",tc=7,mintc=3,peer=1,system=\"rust_gps_ntp\"");
        reveal_strlit(",tc=7");
        reveal_strlit(",mintc=3");
        reveal_strlit(",peer=1");
        reveal_strlit(",system=\"rust_gps_ntp\"");
        assert(",tc=7,mintc=3,peer=1,system=\"rust_gps_ntp\""@ =~= ",tc=7"@ + ",mintc=3"@ + ",peer=1"@ + ",system=\"rust_gps_ntp\""@);
    }
    assert(",tc=7"@ == seq![','] + "tc"@ + seq!['='] + "7"@ && is_word("tc"@) && !"7"@.contains(',')) by {
        reveal_strlit(",tc=7");
        reveal_strlit("tc");
        reveal_strlit("7");
        assert(",tc=7"@ =~= seq![','] + "tc"@ + seq!['='] + "7"@);
    }
    lemma_closed(acc, ",tc=7"@, "tc"@, "7"@, wanted);
    assert(",mintc=3"@ == seq![','] + "mintc"@ + seq!['='] + "3"@ && is_word("mintc"@) && !"3"@.contains(',')) by {
        reveal_strlit(",mintc=3");
        reveal_strlit("mintc");
        reveal_strlit("3");
        assert(",mintc=3"@ =~= seq![','] + "mintc"@ + seq!['='] + "3"@);
    }
    lemma_closed(acc + ",tc=7"@, ",mintc=3"@, "mintc"@, "3"@, wanted);
    assert(",peer=1"@ == seq![','] + "peer"@ + seq!['='] + "1"@ && is_word("peer"@) && !"1"@.contains(',')) by {
        reveal_strlit(",peer=1");
        reveal_strlit("peer");
        reveal_strlit("1");
        assert(",peer=1"@ =~= seq![','] + "peer"@ + seq!['='] + "1"@);
    }
    lemma_closed(acc + ",tc=7"@ + ",mintc=3"@, ",peer=1"@, "peer"@, "1"@, wanted);
    assert(",system=\"rust_gps_ntp\""@ == seq![','] + "system"@ + seq!['='] + "\"rust_gps_ntp\""@ && is_word("system"@) && !"\"rust_gps_ntp\""@.contains(',')) by {
        reveal_strlit(",system=\"rust_gps_ntp\"");
        reveal_strlit("system");
        reveal_strlit("\"rust_gps_ntp\"");
        assert(",system=\"rust_gps_ntp\""@ =~= seq![','] + "system"@ + seq!['='] + "\"rust_gps_ntp\""@);
    }
    lemma_closed(acc + ",tc=7"@ + ",mintc=3"@ + ",peer=1"@, ",system=\"rust_gps_ntp\""@, "system"@, "\"rust_gps_ntp\""@, wanted);
    assert(acc + ",tc=7,mintc=3,peer=1,system=\"rust_gps_ntp\""@ =~= acc + ",tc=7"@ + ",mintc=3"@ + ",peer=1"@ + ",system=\"rust_gps_ntp\""@);
}

/// Each variable is found under its name.
pub proof fn lemma_system_synced(dp: DisciplineParams, m: ServoMetrics, wanted: Seq<char>)
    requires
        dp.stratum == 1,
        is_word(wanted),
    ensures
        variable(mode6::system_vars(dp, m), wanted) == synced_system(dp, m, wanted),
{
    lemma_system_synced_1(dp, m, wanted);
    lemma_system_synced_2("stratum="@ + text::dec(dp.stratum as int) + ",leap="@ + mode6::leap_text(dp.leap) + ",precision="@ + text::signed_dec(dp.precision as int) + ",rootdelay=0.000,rootdisp="@ + text::thousandths(dp.root_disp_us as int), dp, m, wanted);
    lemma_system_synced_3("stratum="@ + text::dec(dp.stratum as int) + ",leap="@ + mode6::leap_text(dp.leap) + ",precision="@ + text::signed_dec(dp.precision as int) + ",rootdelay=0.000,rootdisp="@ + text::thousandths(dp.root_disp_us as int) + ",refid=GPS,reftime="@ + mode6::timestamp_text(dp.ref_ts) + ",clock="@ + mode6::timestamp_text(dp.current_ts) + ",offset="@ + text::signed_thousandths(m.pps_offset_us as int) + ",frequency="@ + mode6::plus_sign(m.freq_ppb as int) + text::signed_thousandths(m.freq_ppb as int), dp, m, wanted);
    lemma_system_synced_4("stratum="@ + text::dec(dp.stratum as int) + ",leap="@ + mode6::leap_text(dp.leap) + ",precision="@ + text::signed_dec(dp.precision as int) + ",rootdelay=0.000,rootdisp="@ + text::thousandths(dp.root_disp_us as int) + ",refid=GPS,reftime="@ + mode6::timestamp_text(dp.ref_ts) + ",clock="@ + mode6::timestamp_text(dp.current_ts) + ",offset="@ + text::signed_thousandths(m.pps_offset_us as int) + ",frequency="@ + mode6::plus_sign(m.freq_ppb as int) + text::signed_thousandths(m.freq_ppb as int) + ",sys_jitter="@ + text::thousandths(mode6::shown_us(m.pps_jitter_ps as int)) + ",clk_jitter="@ + text::thousandths(mode6::shown_us(m.pps_jitter_ps as int)) + ",clk_wander="@ + text::thousandths(mode6::magnitude(m.freq_ppb as int)), dp, m, wanted);
}

/// The system variables of a server without good time.
pub open spec fn unsynced_system(dp: DisciplineParams, m: ServoMetrics, name: Seq<char>) -> Option<Seq<char>> {
    if name == "stratum"@ {
        Some("16"@)
    } else if name == "leap"@ {
        Some("11"@)
    } else if name == "precision"@ {
        Some(text::signed_dec(dp.precision as int))
    } else if name == "rootdelay"@ {
        Some("0.000"@)
    } else if name == "rootdisp"@ {
        Some(text::thousandths(dp.root_disp_us as int))
    } else if name == "refid"@ {
        Some("INIT"@)
    } else if name == "reftime"@ {
        Some(mode6::timestamp_text(dp.ref_ts))
    } else if name == "clock"@ {
        Some(mode6::timestamp_text(dp.current_ts))
    } else if name == "offset"@ {
        Some("0.000"@)
    } else if name == "frequency"@ {
        Some("+0.000"@)
    } else if name == "sys_jitter"@ {
        Some("0.000"@)
    } else if name == "clk_jitter"@ {
        Some("0.000"@)
    } else if name == "clk_wander"@ {
        Some("0.000"@)
    } else if name == "tc"@ {
        Some("7"@)
    } else if name == "mintc"@ {
        Some("3"@)
    } else if name == "peer"@ {
        Some("0"@)
    } else if name == "system"@ {
        Some("\"rust_gps_ntp\""@)
    } else {
        None
    }
}

/// Part of the variables.
proof fn lemma_system_unsynced_1(dp: DisciplineParams, m: ServoMetrics, wanted: Seq<char>)
    requires
        is_word(wanted),
    ensures
        variable("stratum=16,leap=11,precision="@ + text::signed_dec(dp.precision as int) + ",rootdelay=0.000,rootdisp="@ + text::thousandths(dp.root_disp_us as int), wanted) == if wanted == "stratum"@ {
            Some("16"@)
        } else if wanted == "leap"@ {
            Some("11"@)
        } else if wanted == "precision"@ {
            Some(text::signed_dec(dp.precision as int))
        } else if wanted == "rootdelay"@ {
            Some("0.000"@)
        } else if wanted == "rootdisp"@ {
            Some(text::thousandths(dp.root_disp_us as int))
        } else {
            None
        },
{
    lemma_all_values(dp, m);
    assert("stratum=16,leap=11,precision="@ == "stratum=16"@ + ",leap=11"@ + ",precision="@) by {
        reveal_strlit("stratum=16,leap=11,precision=");
        reveal_strlit("stratum=16");
        reveal_strlit(",leap=11");
        reveal_strlit(",precision=");
        assert("stratum=16,leap=11,precision="@ =~= "stratum=16"@ + ",leap=11"@ + ",precision="@);
    }
    assert("stratum=16"@ == "stratum"@ + seq!['='] + "16"@ && is_word("stratum"@) && !"16"@.contains(',')) by {
        reveal_strlit("stratum=16");
        reveal_strlit("stratum");
        reveal_strlit("16");
        assert("stratum=16"@ =~= "stratum"@ + seq!['='] + "16"@);
    }
    lemma_one_pair("stratum"@, "16"@, wanted);
    assert(",leap=11"@ == seq![','] + "leap"@ + seq!['='] + "11"@ && is_word("leap"@) && !"11"@.contains(',')) by {
        reveal_strlit(",leap=11");
        reveal_strlit("leap");
        reveal_strlit("11");
        assert(",leap=11"@ =~= seq![','] + "leap"@ + seq!['='] + "11"@);
    }
    lemma_closed("stratum=16"@, ",leap=11"@, "leap"@, "11"@, wanted);
    assert(",precision="@ == seq![','] + "precision"@ + seq!['='] && is_word("precision"@)) by {
        reveal_strlit(",precision=");
        reveal_strlit("precision");
        assert(",precision="@ =~= seq![','] + "precision"@ + seq!['=']);
    }
    lemma_open("stratum=16"@ + ",leap=11"@, ",precision="@, "precision"@, text::signed_dec(dp.precision as int), wanted);
    assert(",rootdelay=0.000,rootdisp="@ == ",rootdelay=0.000"@ + ",rootdisp="@) by {
        reveal_strlit(",rootdelay=0.000,rootdisp=");
        reveal_strlit(",rootdelay=0.000");
        reveal_strlit(",rootdisp=");
        assert(",rootdelay=0.000,rootdisp="@ =~= ",rootdelay=0.000"@ + ",rootdisp="@);
    }
    assert(",rootdelay=0.000"@ == seq![','] + "rootdelay"@ + seq!['='] + "0.000"@ && is_word("rootdelay"@) && !"0.000"@.contains(',')) by {
        reveal_strlit(",rootdelay=0.000");
        reveal_strlit("rootdelay");
        reveal_strlit("0.000");
        assert(",rootdelay=0.000"@ =~= seq![','] + "rootdelay"@ + seq!['='] + "0.000"@);
    }
    lemma_closed("stratum=16,leap=11,precision="@ + text::signed_dec(dp.precision as int), ",rootdelay=0.000"@, "rootdelay"@, "0.000"@, wanted);
    assert(",rootdisp="@ == seq![','] + "rootdisp"@ + seq!['='] && is_word("rootdisp"@)) by {
        reveal_strlit(",rootdisp=");
        reveal_strlit("rootdisp");
        assert(",rootdisp="@ =~= seq![','] + "rootdisp"@ + seq!['=']);
    }
    lemma_open("stratum=16,leap=11,precision="@ + text::signed_dec(dp.precision as int) + ",rootdelay=0.000"@, ",rootdisp="@, "rootdisp"@, text::thousandths(dp.root_disp_us as int), wanted);
    assert("stratum=16,leap=11,precision="@ + text::signed_dec(dp.precision as int) + ",rootdelay=0.000,rootdisp="@ + text::thousandths(dp.root_disp_us as int) =~= "stratum=16,leap=11,precision="@ + text::signed_dec(dp.precision as int) + ",rootdelay=0.000"@ + ",rootdisp="@ + text::thousandths(dp.root_disp_us as int));
}

/// Part of the variables.
proof fn lemma_system_unsynced_2(acc: Seq<char>, dp: DisciplineParams, m: ServoMetrics, wanted: Seq<char>)
    requires
        is_word(wanted),
    ensures
        variable(acc + ",refid=INIT,reftime="@ + mode6::timestamp_text(dp.ref_ts) + ",clock="@ + mode6::timestamp_text(dp.current_ts), wanted) == if variable(acc, wanted) is Some {
            variable(acc, wanted)
        } else if wanted == "refid"@ {
            Some("INIT"@)
        } else if wanted == "reftime"@ {
            Some(mode6::timestamp_text(dp.ref_ts))
        } else if wanted == "clock"@ {
            Some(mode6::timestamp_text(dp.current_ts))
        } else {
            None
        },
{
    lemma_all_values(dp, m);
    assert(",refid=INIT,reftime="@ == ",refid=INIT"@ + ",reftime="@) by {
        reveal_strlit(",refid=INIT,reftime=");
        reveal_strlit(",refid=INIT");
        reveal_strlit(",reftime=");
        assert(",refid=INIT,reftime="@ =~= ",refid=INIT"@ + ",reftime="@);
    }
    assert(",refid=INIT"@ == seq![','] + "refid"@ + seq!['='] + "INIT"@ && is_word("refid"@) && !"INIT"@.contains(',')) by {
        reveal_strlit(",refid=INIT");
        reveal_strlit("refid");
        reveal_strlit("INIT");
        assert(",refid=INIT"@ =~= seq![','] + "refid"@ + seq!['='] + "INIT"@);
    }
    lemma_closed(acc, ",refid=INIT"@, "refid"@, "INIT"@, wanted);
    assert(",reftime="@ == seq![','] + "reftime"@ + seq!['='] && is_word("reftime"@)) by {
        reveal_strlit(",reftime=");
        reveal_strlit("reftime");
        assert(",reftime="@ =~= seq![','] + "reftime"@ + seq!['=']);
    }
    lemma_open(acc + ",refid=INIT"@, ",reftime="@, "reftime"@, mode6::timestamp_text(dp.ref_ts), wanted);
    assert(acc + ",refid=INIT,reftime="@ + mode6::timestamp_text(dp.ref_ts) =~= acc + ",refid=INIT"@ + ",reftime="@ + mode6::timestamp_text(dp.ref_ts));
    assert(",clock="@ == seq![','] + "clock"@ + seq!['='] && is_word("clock"@)) by {
        reveal_strlit(",clock=");
        reveal_strlit("clock");
        assert(",clock="@ =~= seq![','] + "clock"@ + seq!['=']);
    }
    lemma_open(acc + ",refid=INIT,reftime="@ + mode6::timestamp_text(dp.ref_ts), ",clock="@, "clock"@, mode6::timestamp_text(dp.current_ts), wanted);
}

/// Part of the variables.
proof fn lemma_system_unsynced_3(acc: Seq<char>, dp: DisciplineParams, m: ServoMetrics, wanted: Seq<char>)
    requires
        is_word(wanted),
    ensures
        variable(acc + ",offset=0.000,frequency=+0.000,sys_jitter=0.000,clk_jitter=0.000,clk_wander=0.000"@, wanted) == if variable(acc, wanted) is Some {
            variable(acc, wanted)
        } else if wanted == "offset"@ {
            Some("0.000"@)
        } else if wanted == "frequency"@ {
            Some("+0.000"@)
        } else if wanted == "sys_jitter"@ {
            Some("0.000"@)
        } else if wanted == "clk_jitter"@ {
            Some("0.000"@)
        } else if wanted == "clk_wander"@ {
            Some("0.000"@)
        } else {
            None
        },
{
    lemma_all_values(dp, m);
    assert(",offset=0.000,frequency=+0.000,sys_jitter=0.000,clk_jitter=0.000,clk_wander=0.000"@ == ",offset=0.000"@ + ",frequency=+0.000"@ + ",sys_jitter=0.000"@ + ",clk_jitter=0.000"@ + ",clk_wander=0.000"@) by {
        reveal_strlit(",offset=0.000,frequency=+0.000,sys_jitter=0.000,clk_jitter=0.000,clk_wander=0.000");
        reveal_strlit(",offset=0.000");
        reveal_strlit(",frequency=+0.000");
        reveal_strlit(",sys_jitter=0.000");
        reveal_strlit(",clk_jitter=0.000");
        reveal_strlit(",clk_wander=0.000");
        assert(",offset=0.000,frequency=+0.000,sys_jitter=0.000,clk_jitter=0.000,clk_wander=0.000"@ =~= ",offset=0.000"@ + ",frequency=+0.000"@ + ",sys_jitter=0.000"@ + ",clk_jitter=0.000"@ + ",clk_wander=0.000"@);
    }
    assert(",offset=0.000"@ == seq![','] + "offset"@ + seq!['='] + "0.000"@ && is_word("offset"@) && !"0.000"@.contains(',')) by {
        reveal_strlit(",offset=0.000");
        reveal_strlit("offset");
        reveal_strlit("0.000");
        assert(",offset=0.000"@ =~= seq![','] + "offset"@ + seq!['='] + "0.000"@);
    }
    lemma_closed(acc, ",offset=0.000"@, "offset"@, "0.000"@, wanted);
    assert(",frequency=+0.000"@ == seq![','] + "frequency"@ + seq!['='] + "+0.000"@ && is_word("frequency"@) && !"+0.000"@.contains(',')) by {
        reveal_strlit(",frequency=+0.000");
        reveal_strlit("frequency");
        reveal_strlit("+0.000");
        assert(",frequency=+0.000"@ =~= seq![','] + "frequency"@ + seq!['='] + "+0.000"@);
    }
    lemma_closed(acc + ",offset=0.000"@, ",frequency=+0.000"@, "frequency"@, "+0.000"@, wanted);
    assert(",sys_jitter=0.000"@ == seq![','] + "sys_jitter"@ + seq!['='] + "0.000"@ && is_word("sys_jitter"@) && !"0.000"@.contains(',')) by {
        reveal_strlit(",sys_jitter=0.000");
        reveal_strlit("sys_jitter");
        reveal_strlit("0.000");
        assert(",sys_jitter=0.000"@ =~= seq![','] + "sys_jitter"@ + seq!['='] + "0.000"@);
    }
    lemma_closed(acc + ",offset=0.000"@ + ",frequency=+0.000"@, ",sys_jitter=0.000"@, "sys_jitter"@, "0.000"@, wanted);
    assert(",clk_jitter=0.000"@ == seq![','] + "clk_jitter"@ + seq!['='] + "0.000"@ && is_word("clk_jitter"@) && !"0.000"@.contains(',')) by {
        reveal_strlit(",clk_jitter=0.000");
        reveal_strlit("clk_jitter");
        reveal_strlit("0.000");
        assert(",clk_jitter=0.000"@ =~= seq![','] + "clk_jitter"@ + seq!['='] + "0.000"@);
    }
    lemma_closed(acc + ",offset=0.000"@ + ",frequency=+0.000"@ + ",sys_jitter=0.000"@, ",clk_jitter=0.000"@, "clk_jitter"@, "0.000"@, wanted);
    assert(",clk_wander=0.000"@ == seq![','] + "clk_wander"@ + seq!['='] + "0.000"@ && is_word("clk_wander"@) && !"0.000"@.contains(',')) by {
        reveal_strlit(",clk_wander=0.000");
        reveal_strlit("clk_wander");
        reveal_strlit("0.000");
        assert(",clk_wander=0.000"@ =~= seq![','] + "clk_wander"@ + seq!['='] + "0.000"@);
    }
    lemma_closed(acc + ",offset=0.000"@ + ",frequency=+0.000"@ + ",sys_jitter=0.000"@ + ",clk_jitter=0.000"@, ",clk_wander=0.000"@, "clk_wander"@, "0.000"@, wanted);
    assert(acc + ",offset=0.000,frequency=+0.000,sys_jitter=0.000,clk_jitter=0.000,clk_wander=0.000"@ =~= acc + ",offset=0.000"@ + ",frequency=+0.000"@ + ",sys_jitter=0.000"@ + ",clk_jitter=0.000"@ + ",clk_wander=0.000"@);
}

/// Part of the variables.
proof fn lemma_system_unsynced_4(acc: Seq<char>, dp: DisciplineParams, m: ServoMetrics, wanted: Seq<char>)
    requires
        is_word(wanted),
    ensures
        variable(acc + ",tc=7,mintc=3,peer=0,system=\"rust_gps_ntp\""@, wanted) == if variable(acc, wanted) is Some {
            variable(acc, wanted)
        } else if wanted == "tc"@ {
            Some("7"@)
        } else if wanted == "mintc"@ {
            Some("3"@)
        } else if wanted == "peer"@ {
            Some("0"@)
        } else if wanted == "system"@ {
            Some("\"rust_gps_ntp\""@)
        } else {
            None
        },
{
    lemma_all_values(dp, m);
    assert(",tc=7,mintc=3,peer=0,system=\"rust_gps_ntp\""@ == ",tc=7"@ + ",mintc=3"@ + ",peer=0"@ + ",system=\"rust_gps_ntp\""@) by {
        reveal_strlit(",tc=7,mintc=3,peer=0,system=\"rust_gps_ntp\"");
        reveal_strlit(",tc=7");
        reveal_strlit(",mintc=3");
        reveal_strlit(",peer=0");
        reveal_strlit(",system=\"rust_gps_ntp\"");
        assert(",tc=7,mintc=3,peer=0,system=\"rust_gps_ntp\""@ =~= ",tc=7"@ + ",mintc=3"@ + ",peer=0"@ + ",system=\"rust_gps_ntp\""@);
    }
    assert(",tc=7"@ == seq![','] + "tc"@ + seq!['='] + "7"@ && is_word("tc"@) && !"7"@.contains(',')) by {
        reveal_strlit(",tc=7");
        reveal_strlit("tc");
        reveal_strlit("7");
        assert(",tc=7"@ =~= seq![','] + "tc"@ + seq!['='] + "7"@);
    }
    lemma_closed(acc, ",tc=7"@, "tc"@, "7"@, wanted);
    assert(",mintc=3"@ == seq![','] + "mintc"@ + seq!['='] + "3"@ && is_word("mintc"@) && !"3"@.contains(',')) by {
        reveal_strlit(",mintc=3");
        reveal_strlit("mintc");
        reveal_strlit("3");
        assert(",mintc=3"@ =~= seq![','] + "mintc"@ + seq!['='] + "3"@);
    }
    lemma_closed(acc + ",tc=7"@, ",mintc=3"@, "mintc"@, "3"@, wanted);
    assert(",peer=0"@ == seq![','] + "peer"@ + seq!['='] + "0"@ && is_word("peer"@) && !"0"@.contains(',')) by {
        reveal_strlit(",peer=0");
        reveal_strlit("peer");
        reveal_strlit("0");
        assert(",peer=0"@ =~= seq![','] + "peer"@ + seq!['='] + "0"@);
    }
    lemma_closed(acc + ",tc=7"@ + ",mintc=3"@, ",peer=0"@, "peer"@, "0"@, wanted);
    assert(",system=\"rust_gps_ntp\""@ == seq![','] + "system"@ + seq!['='] + "\"rust_gps_ntp\""@ && is_word("system"@) && !"\"rust_gps_ntp\""@.contains(',')) by {
        reveal_strlit(",system=\"rust_gps_ntp\"");
        reveal_strlit("system");
        reveal_strlit("\"rust_gps_ntp\"");
        assert(",system=\"rust_gps_ntp\""@ =~= seq![','] + "system"@ + seq!['='] + "\"rust_gps_ntp\""@);
    }
    lemma_closed(acc + ",tc=7"@ + ",mintc=3"@ + ",peer=0"@, ",system=\"rust_gps_ntp\""@, "system"@, "\"rust_gps_ntp\""@, wanted);
    assert(acc + ",tc=7,mintc=3,peer=0,system=\"rust_gps_ntp\""@ =~= acc + ",tc=7"@ + ",mintc=3"@ + ",peer=0"@ + ",system=\"rust_gps_ntp\""@);
}

/// Each variable is found under its name.
pub proof fn lemma_system_unsynced(dp: DisciplineParams, m: ServoMetrics, wanted: Seq<char>)
    requires
        dp.stratum != 1,
        is_word(wanted),
    ensures
        variable(mode6::system_vars(dp, m), wanted) == unsynced_system(dp, m, wanted),
{
    lemma_system_unsynced_1(dp, m, wanted);
    lemma_system_unsynced_2("stratum=16,leap=11,precision="@ + text::signed_dec(dp.precision as int) + ",rootdelay=0.000,rootdisp="@ + text::thousandths(dp.root_disp_us as int), dp, m, wanted);
    lemma_system_unsynced_3("stratum=16,leap=11,precision="@ + text::signed_dec(dp.precision as int) + ",rootdelay=0.000,rootdisp="@ + text::thousandths(dp.root_disp_us as int) + ",refid=INIT,reftime="@ + mode6::timestamp_text(dp.ref_ts) + ",clock="@ + mode6::timestamp_text(dp.current_ts), dp, m, wanted);
    lemma_system_unsynced_4("stratum=16,leap=11,precision="@ + text::signed_dec(dp.precision as int) + ",rootdelay=0.000,rootdisp="@ + text::thousandths(dp.root_disp_us as int) + ",refid=INIT,reftime="@ + mode6::timestamp_text(dp.ref_ts) + ",clock="@ + mode6::timestamp_text(dp.current_ts) + ",offset=0.000,frequency=+0.000,sys_jitter=0.000,clk_jitter=0.000,clk_wander=0.000"@, dp, m, wanted);
}

/// The variables of the association of a server with good time.
pub open spec fn synced_peer(dp: DisciplineParams, m: ServoMetrics, name: Seq<char>) -> Option<Seq<char>> {
    if name == "srcadr"@ {
        Some("GPS"@)
    } else if name == "srcport"@ {
        Some("123"@)
    } else if name == "refid"@ {
        Some("GPS"@)
    } else if name == "stratum"@ {
        Some(text::dec(dp.stratum as int))
    } else if name == "leap"@ {
        Some(mode6::leap_text(dp.leap))
    } else if name == "hmode"@ {
        Some("3"@)
    } else if name == "pmode"@ {
        Some("4"@)
    } else if name == "hpoll"@ {
        Some("6"@)
    } else if name == "ppoll"@ {
        Some("6"@)
    } else if name == "reach"@ {
        Some("255"@)
    } else if name == "delay"@ {
        Some(text::thousandths(mode6::shown_us(m.proc_delay_ps as int)))
    } else if name == "offset"@ {
        Some(text::signed_thousandths(m.pps_offset_us as int))
    } else if name == "jitter"@ {
        Some(text::thousandths(mode6::shown_us(m.pps_jitter_ps as int)))
    } else if name == "dispersion"@ {
        Some(text::thousandths(dp.root_disp_us as int))
    } else if name == "xleave"@ {
        Some("0.000"@)
    } else if name == "filtdelay"@ {
        Some(text::thousandths(mode6::shown_us(m.proc_delay_ps as int)))
    } else if name == "filtoffset"@ {
        Some(text::signed_thousandths(m.pps_offset_us as int))
    } else if name == "filtdisp"@ {
        Some(text::thousandths(mode6::shown_us(m.pps_jitter_ps as int)))
    } else {
        None
    }
}

/// Part of the variables.
proof fn lemma_peer_synced_1(dp: DisciplineParams, m: ServoMetrics, wanted: Seq<char>)
    requires
        is_word(wanted),
    ensures
        variable("srcadr=GPS,srcport=123,refid=GPS,stratum="@ + text::dec(dp.stratum as int) + ",leap="@ + mode6::leap_text(dp.leap), wanted) == if wanted == "srcadr"@ {
            Some("GPS"@)
        } else if wanted == "srcport"@ {
            Some("123"@)
        } else if wanted == "refid"@ {
            Some("GPS"@)
        } else if wanted == "stratum"@ {
            Some(text::dec(dp.stratum as int))
        } else if wanted == "leap"@ {
            Some(mode6::leap_text(dp.leap))
        } else {
            None
        },
{
    lemma_all_values(dp, m);
    assert("srcadr=GPS,srcport=123,refid=GPS,stratum="@ == "srcadr=GPS"@ + ",srcport=123"@ + ",refid=GPS"@ + ",stratum="@) by {
        reveal_strlit("srcadr=GPS,srcport=123,refid=GPS,stratum=");
        reveal_strlit("srcadr=GPS");
        reveal_strlit(",srcport=123");
        reveal_strlit(",refid=GPS");
        reveal_strlit(",stratum=");
        assert("srcadr=GPS,srcport=123,refid=GPS,stratum="@ =~= "srcadr=GPS"@ + ",srcport=123"@ + ",refid=GPS"@ + ",stratum="@);
    }
    assert("srcadr=GPS"@ == "srcadr"@ + seq!['='] + "GPS"@ && is_word("srcadr"@) && !"GPS"@.contains(',')) by {
        reveal_strlit("srcadr=GPS");
        reveal_strlit("srcadr");
        reveal_strlit("GPS");
        assert("srcadr=GPS"@ =~= "srcadr"@ + seq!['='] + "GPS"@);
    }
    lemma_one_pair("srcadr"@, "GPS"@, wanted);
    assert(",srcport=123"@ == seq![','] + "srcport"@ + seq!['='] + "123"@ && is_word("srcport"@) && !"123"@.contains(',')) by {
        reveal_strlit(",srcport=123");
        reveal_strlit("srcport");
        reveal_strlit("123");
        assert(",srcport=123"@ =~= seq![','] + "srcport"@ + seq!['='] + "123"@);
    }
    lemma_closed("srcadr=GPS"@, ",srcport=123"@, "srcport"@, "123"@, wanted);
    assert(",refid=GPS"@ == seq![','] + "refid"@ + seq!['='] + "GPS"@ && is_word("refid"@) && !"GPS"@.contains(',')) by {
        reveal_strlit(",refid=GPS");
        reveal_strlit("refid");
        reveal_strlit("GPS");
        assert(",refid=GPS"@ =~= seq![','] + "refid"@ + seq!['='] + "GPS"@);
    }
    lemma_closed("srcadr=GPS"@ + ",srcport=123"@, ",refid=GPS"@, "refid"@, "GPS"@, wanted);
    assert(",stratum="@ == seq![','] + "stratum"@ + seq!['='] && is_word("stratum"@)) by {
        reveal_strlit(",stratum=");
        reveal_strlit("stratum");
        assert(",stratum="@ =~= seq![','] + "stratum"@ + seq!['=']);
    }
    lemma_open("srcadr=GPS"@ + ",srcport=123"@ + ",refid=GPS"@, ",stratum="@, "stratum"@, text::dec(dp.stratum as int), wanted);
    assert(",leap="@ == seq![','] + "leap"@ + seq!['='] && is_word("leap"@)) by {
        reveal_strlit(",leap=");
        reveal_strlit("leap");
        assert(",leap="@ =~= seq![','] + "leap"@ + seq!['=']);
    }
    lemma_open("srcadr=GPS,srcport=123,refid=GPS,stratum="@ + text::dec(dp.stratum as int), ",leap="@, "leap"@, mode6::leap_text(dp.leap), wanted);
}

/// Part of the variables.
proof fn lemma_peer_synced_2(acc: Seq<char>, dp: DisciplineParams, m: ServoMetrics, wanted: Seq<char>)
    requires
        is_word(wanted),
    ensures
        variable(acc + ",hmode=3,pmode=4,hpoll=6,ppoll=6,reach=255,delay="@ + text::thousandths(mode6::shown_us(m.proc_delay_ps as int)), wanted) == if variable(acc, wanted) is Some {
            variable(acc, wanted)
        } else if wanted == "hmode"@ {
            Some("3"@)
        } else if wanted == "pmode"@ {
            Some("4"@)
        } else if wanted == "hpoll"@ {
            Some("6"@)
        } else if wanted == "ppoll"@ {
            Some("6"@)
        } else if wanted == "reach"@ {
            Some("255"@)
        } else if wanted == "delay"@ {
            Some(text::thousandths(mode6::shown_us(m.proc_delay_ps as int)))
        } else {
            None
        },
{
    lemma_all_values(dp, m);
    assert(",hmode=3,pmode=4,hpoll=6,ppoll=6,reach=255,delay="@ == ",hmode=3"@ + ",pmode=4"@ + ",hpoll=6"@ + ",ppoll=6"@ + ",reach=255"@ + ",delay="@) by {
        reveal_strlit(",hmode=3,pmode=4,hpoll=6,ppoll=6,reach=255,delay=");
        reveal_strlit(",hmode=3");
        reveal_strlit(",pmode=4");
        reveal_strlit(",hpoll=6");
        reveal_strlit(",ppoll=6");
        reveal_strlit(",reach=255");
        reveal_strlit(",delay=");
        assert(",hmode=3,pmode=4,hpoll=6,ppoll=6,reach=255,delay="@ =~= ",hmode=3"@ + ",pmode=4"@ + ",hpoll=6"@ + ",ppoll=6"@ + ",reach=255"@ + ",delay="@);
    }
    assert(",hmode=3"@ == seq![','] + "hmode"@ + seq!['='] + "3"@ && is_word("hmode"@) && !"3"@.contains(',')) by {
        reveal_strlit(",hmode=3");
        reveal_strlit("hmode");
        reveal_strlit("3");
        assert(",hmode=3"@ =~= seq![','] + "hmode"@ + seq!['='] + "3"@);
    }
    lemma_closed(acc, ",hmode=3"@, "hmode"@, "3"@, wanted);
    assert(",pmode=4"@ == seq![','] + "pmode"@ + seq!['='] + "4"@ && is_word("pmode"@) && !"4"@.contains(',')) by {
        reveal_strlit(",pmode=4");
        reveal_strlit("pmode");
        reveal_strlit("4");
        assert(",pmode=4"@ =~= seq![','] + "pmode"@ + seq!['='] + "4"@);
    }
    lemma_closed(acc + ",hmode=3"@, ",pmode=4"@, "pmode"@, "4"@, wanted);
    assert(",hpoll=6"@ == seq![','] + "hpoll"@ + seq!['='] + "6"@ && is_word("hpoll"@) && !"6"@.contains(',')) by {
        reveal_strlit(",hpoll=6");
        reveal_strlit("hpoll");
        reveal_strlit("6");
        assert(",hpoll=6"@ =~= seq![','] + "hpoll"@ + seq!['='] + "6"@);
    }
    lemma_closed(acc + ",hmode=3"@ + ",pmode=4"@, ",hpoll=6"@, "hpoll"@, "6"@, wanted);
    assert(",ppoll=6"@ == seq![','] + "ppoll"@ + seq!['='] + "6"@ && is_word("ppoll"@) && !"6"@.contains(',')) by {
        reveal_strlit(",ppoll=6");
        reveal_strlit("ppoll");
        reveal_strlit("6");
        assert(",ppoll=6"@ =~= seq![','] + "ppoll"@ + seq!['='] + "6"@);
    }
    lemma_closed(acc + ",hmode=3"@ + ",pmode=4"@ + ",hpoll=6"@, ",ppoll=6"@, "ppoll"@, "6"@, wanted);
    assert(",reach=255"@ == seq![','] + "reach"@ + seq!['='] + "255"@ && is_word("reach"@) && !"255"@.contains(',')) by {
        reveal_strlit(",reach=255");
        reveal_strlit("reach");
        reveal_strlit("255");
        assert(",reach=255"@ =~= seq![','] + "reach"@ + seq!['='] + "255"@);
    }
    lemma_closed(acc + ",hmode=3"@ + ",pmode=4"@ + ",hpoll=6"@ + ",ppoll=6"@, ",reach=255"@, "reach"@, "255"@, wanted);
    assert(",delay="@ == seq![','] + "delay"@ + seq!['='] && is_word("delay"@)) by {
        reveal_strlit(",delay=");
        reveal_strlit("delay");
        assert(",delay="@ =~= seq![','] + "delay"@ + seq!['=']);
    }
    lemma_open(acc + ",hmode=3"@ + ",pmode=4"@ + ",hpoll=6"@ + ",ppoll=6"@ + ",reach=255"@, ",delay="@, "delay"@, text::thousandths(mode6::shown_us(m.proc_delay_ps as int)), wanted);
    assert(acc + ",hmode=3,pmode=4,hpoll=6,ppoll=6,reach=255,delay="@ + text::thousandths(mode6::shown_us(m.proc_delay_ps as int)) =~= acc + ",hmode=3"@ + ",pmode=4"@ + ",hpoll=6"@ + ",ppoll=6"@ + ",reach=255"@ + ",delay="@ + text::thousandths(mode6::shown_us(m.proc_delay_ps as int)));
}

/// Part of the variables.
proof fn lemma_peer_synced_3(acc: Seq<char>, dp: DisciplineParams, m: ServoMetrics, wanted: Seq<char>)
    requires
        is_word(wanted),
    ensures
        variable(acc + ",offset="@ + text::signed_thousandths(m.pps_offset_us as int) + ",jitter="@ + text::thousandths(mode6::shown_us(m.pps_jitter_ps as int)) + ",dispersion="@ + text::thousandths(dp.root_disp_us as int) + ",xleave=0.000,filtdelay="@ + text::thousandths(mode6::shown_us(m.proc_delay_ps as int)), wanted) == if variable(acc, wanted) is Some {
            variable(acc, wanted)
        } else if wanted == "offset"@ {
            Some(text::signed_thousandths(m.pps_offset_us as int))
        } else if wanted == "jitter"@ {
            Some(text::thousandths(mode6::shown_us(m.pps_jitter_ps as int)))
        } else if wanted == "dispersion"@ {
            Some(text::thousandths(dp.root_disp_us as int))
        } else if wanted == "xleave"@ {
            Some("0.000"@)
        } else if wanted == "filtdelay"@ {
            Some(text::thousandths(mode6::shown_us(m.proc_delay_ps as int)))
        } else {
            None
        },
{
    lemma_all_values(dp, m);
    assert(",offset="@ == seq![','] + "offset"@ + seq!['='] && is_word("offset"@)) by {
        reveal_strlit(",offset=");
        reveal_strlit("offset");
        assert(",offset="@ =~= seq![','] + "offset"@ + seq!['=']);
    }
    lemma_open(acc, ",offset="@, "offset"@, text::signed_thousandths(m.pps_offset_us as int), wanted);
    assert(",jitter="@ == seq![','] + "jitter"@ + seq!['='] && is_word("jitter"@)) by {
        reveal_strlit(",jitter=");
        reveal_strlit("jitter");
        assert(",jitter="@ =~= seq![','] + "jitter"@ + seq!['=']);
    }
    lemma_open(acc + ",offset="@ + text::signed_thousandths(m.pps_offset_us as int), ",jitter="@, "jitter"@, text::thousandths(mode6::shown_us(m.pps_jitter_ps as int)), wanted);
    assert(",dispersion="@ == seq![','] + "dispersion"@ + seq!['='] && is_word("dispersion"@)) by {
        reveal_strlit(",dispersion=");
        reveal_strlit("dispersion");
        assert(",dispersion="@ =~= seq![','] + "dispersion"@ + seq!['=']);
    }
    lemma_open(acc + ",offset="@ + text::signed_thousandths(m.pps_offset_us as int) + ",jitter="@ + text::thousandths(mode6::shown_us(m.pps_jitter_ps as int)), ",dispersion="@, "dispersion"@, text::thousandths(dp.root_disp_us as int), wanted);
    assert(",xleave=0.000,filtdelay="@ == ",xleave=0.000"@ + ",filtdelay="@) by {
        reveal_strlit(",xleave=0.000,filtdelay=");
        reveal_strlit(",xleave=0.000");
        reveal_strlit(",filtdelay=");
        assert(",xleave=0.000,filtdelay="@ =~= ",xleave=0.000"@ + ",filtdelay="@);
    }
    assert(",xleave=0.000"@ == seq![','] + "xleave"@ + seq!['='] + "0.000"@ && is_word("xleave"@) && !"0.000"@.contains(',')) by {
        reveal_strlit(",xleave=0.000");
        reveal_strlit("xleave");
        reveal_strlit("0.000");
        assert(",xleave=0.000"@ =~= seq![','] + "xleave"@ + seq!['='] + "0.000"@);
    }
    lemma_closed(acc + ",offset="@ + text::signed_thousandths(m.pps_offset_us as int) + ",jitter="@ + text::thousandths(mode6::shown_us(m.pps_jitter_ps as int)) + ",dispersion="@ + text::thousandths(dp.root_disp_us as int), ",xleave=0.000"@, "xleave"@, "0.000"@, wanted);
    assert(",filtdelay="@ == seq![','] + "filtdelay"@ + seq!['='] && is_word("filtdelay"@)) by {
        reveal_strlit(",filtdelay=");
        reveal_strlit("filtdelay");
        assert(",filtdelay="@ =~= seq![','] + "filtdelay"@ + seq!['=']);
    }
    lemma_open(acc + ",offset="@ + text::signed_thousandths(m.pps_offset_us as int) + ",jitter="@ + text::thousandths(mode6::shown_us(m.pps_jitter_ps as int)) + ",dispersion="@ + text::thousandths(dp.root_disp_us as int) + ",xleave=0.000"@, ",filtdelay="@, "filtdelay"@, text::thousandths(mode6::shown_us(m.proc_delay_ps as int)), wanted);
    assert(acc + ",offset="@ + text::signed_thousandths(m.pps_offset_us as int) + ",jitter="@ + text::thousandths(mode6::shown_us(m.pps_jitter_ps as int)) + ",dispersion="@ + text::thousandths(dp.root_disp_us as int) + ",xleave=0.000,filtdelay="@ + text::thousandths(mode6::shown_us(m.proc_delay_ps as int)) =~= acc + ",offset="@ + text::signed_thousandths(m.pps_offset_us as int) + ",jitter="@ + text::thousandths(mode6::shown_us(m.pps_jitter_ps as int)) + ",dispersion="@ + text::thousandths(dp.root_disp_us as int) + ",xleave=0.000"@ + ",filtdelay="@ + text::thousandths(mode6::shown_us(m.proc_delay_ps as int)));
}

/// Part of the variables.
proof fn lemma_peer_synced_4(acc: Seq<char>, dp: DisciplineParams, m: ServoMetrics, wanted: Seq<char>)
    requires
        is_word(wanted),
    ensures
        variable(acc + ",filtoffset="@ + text::signed_thousandths(m.pps_offset_us as int) + ",filtdisp="@ + text::thousandths(mode6::shown_us(m.pps_jitter_ps as int)), wanted) == if variable(acc, wanted) is Some {
            variable(acc, wanted)
        } else if wanted == "filtoffset"@ {
            Some(text::signed_thousandths(m.pps_offset_us as int))
        } else if wanted == "filtdisp"@ {
            Some(text::thousandths(mode6::shown_us(m.pps_jitter_ps as int)))
        } else {
            None
        },
{
    lemma_all_values(dp, m);
    assert(",filtoffset="@ == seq![','] + "filtoffset"@ + seq!['='] && is_word("filtoffset"@)) by {
        reveal_strlit(",filtoffset=");
        reveal_strlit("filtoffset");
        assert(",filtoffset="@ =~= seq![','] + "filtoffset"@ + seq!['=']);
    }
    lemma_open(acc, ",filtoffset="@, "filtoffset"@, text::signed_thousandths(m.pps_offset_us as int), wanted);
    assert(",filtdisp="@ == seq![','] + "filtdisp"@ + seq!['='] && is_word("filtdisp"@)) by {
        reveal_strlit(",filtdisp=");
        reveal_strlit("filtdisp");
        assert(",filtdisp="@ =~= seq![','] + "filtdisp"@ + seq!['=']);
    }
    lemma_open(acc + ",filtoffset="@ + text::signed_thousandths(m.pps_offset_us as int), ",filtdisp="@, "filtdisp"@, text::thousandths(mode6::shown_us(m.pps_jitter_ps as int)), wanted);
}

/// Each variable is found under its name.
pub proof fn lemma_peer_synced(dp: DisciplineParams, m: ServoMetrics, wanted: Seq<char>)
    requires
        dp.stratum == 1,
        is_word(wanted),
    ensures
        variable(mode6::peer_vars(dp, m), wanted) == synced_peer(dp, m, wanted),
{
    lemma_peer_synced_1(dp, m, wanted);
    lemma_peer_synced_2("srcadr=GPS,srcport=123,refid=GPS,stratum="@ + text::dec(dp.stratum as int) + ",leap="@ + mode6::leap_text(dp.leap), dp, m, wanted);
    lemma_peer_synced_3("srcadr=GPS,srcport=123,refid=GPS,stratum="@ + text::dec(dp.stratum as int) + ",leap="@ + mode6::leap_text(dp.leap) + ",hmode=3,pmode=4,hpoll=6,ppoll=6,reach=255,delay="@ + text::thousandths(mode6::shown_us(m.proc_delay_ps as int)), dp, m, wanted);
    lemma_peer_synced_4("srcadr=GPS,srcport=123,refid=GPS,stratum="@ + text::dec(dp.stratum as int) + ",leap="@ + mode6::leap_text(dp.leap) + ",hmode=3,pmode=4,hpoll=6,ppoll=6,reach=255,delay="@ + text::thousandths(mode6::shown_us(m.proc_delay_ps as int)) + ",offset="@ + text::signed_thousandths(m.pps_offset_us as int) + ",jitter="@ + text::thousandths(mode6::shown_us(m.pps_jitter_ps as int)) + ",dispersion="@ + text::thousandths(dp.root_disp_us as int) + ",xleave=0.000,filtdelay="@ + text::thousandths(mode6::shown_us(m.proc_delay_ps as int)), dp, m, wanted);
}

/// The variables of the association of a server without good time.
pub open spec fn unsynced_peer(dp: DisciplineParams, m: ServoMetrics, name: Seq<char>) -> Option<Seq<char>> {
    if name == "srcadr"@ {
        Some("INIT"@)
    } else if name == "srcport"@ {
        Some("123"@)
    } else if name == "refid"@ {
        Some("INIT"@)
    } else if name == "stratum"@ {
        Some("16"@)
    } else if name == "leap"@ {
        Some("11"@)
    } else if name == "hmode"@ {
        Some("3"@)
    } else if name == "pmode"@ {
        Some("4"@)
    } else if name == "hpoll"@ {
        Some("6"@)
    } else if name == "ppoll"@ {
        Some("6"@)
    } else if name == "reach"@ {
        Some("0"@)
    } else if name == "delay"@ {
        Some("0.001"@)
    } else if name == "offset"@ {
        Some("0.000"@)
    } else if name == "jitter"@ {
        Some("0.000"@)
    } else if name == "dispersion"@ {
        Some("5000.000"@)
    } else if name == "xleave"@ {
        Some("0.000"@)
    } else if name == "filtdelay"@ {
        Some("0.001"@)
    } else if name == "filtoffset"@ {
        Some("0.000"@)
    } else if name == "filtdisp"@ {
        Some("5000.000"@)
    } else {
        None
    }
}

/// Part of the variables.
proof fn lemma_peer_unsynced_1(dp: DisciplineParams, m: ServoMetrics, wanted: Seq<char>)
    requires
        is_word(wanted),
    ensures
        variable("srcadr=INIT,srcport=123,refid=INIT,stratum=16,leap=11,hmode=3,pmode=4,hpoll=6,ppoll=6"@, wanted) == if wanted == "srcadr"@ {
            Some("INIT"@)
        } else if wanted == "srcport"@ {
            Some("123"@)
        } else if wanted == "refid"@ {
            Some("INIT"@)
        } else if wanted == "stratum"@ {
            Some("16"@)
        } else if wanted == "leap"@ {
            Some("11"@)
        } else if wanted == "hmode"@ {
            Some("3"@)
        } else if wanted == "pmode"@ {
            Some("4"@)
        } else if wanted == "hpoll"@ {
            Some("6"@)
        } else if wanted == "ppoll"@ {
            Some("6"@)
        } else {
            None
        },
{
    lemma_all_values(dp, m);
    assert("srcadr=INIT,srcport=123,refid=INIT,stratum=16,leap=11,hmode=3,pmode=4,hpoll=6,ppoll=6"@ == "srcadr=INIT"@ + ",srcport=123"@ + ",refid=INIT"@ + ",stratum=16"@ + ",leap=11"@ + ",hmode=3"@ + ",pmode=4"@ + ",hpoll=6"@ + ",ppoll=6"@) by {
        reveal_strlit("srcadr=INIT,srcport=123,refid=INIT,stratum=16,leap=11,hmode=3,pmode=4,hpoll=6,ppoll=6");
        reveal_strlit("srcadr=INIT");
        reveal_strlit(",srcport=123");
        reveal_strlit(",refid=INIT");
        reveal_strlit(",stratum=16");
        reveal_strlit(",leap=11");
        reveal_strlit(",hmode=3");
        reveal_strlit(",pmode=4");
        reveal_strlit(",hpoll=6");
        reveal_strlit(",ppoll=6");
        assert("srcadr=INIT,srcport=123,refid=INIT,stratum=16,leap=11,hmode=3,pmode=4,hpoll=6,ppoll=6"@ =~= "srcadr=INIT"@ + ",srcport=123"@ + ",refid=INIT"@ + ",stratum=16"@ + ",leap=11"@ + ",hmode=3"@ + ",pmode=4"@ + ",hpoll=6"@ + ",ppoll=6"@);
    }
    assert("srcadr=INIT"@ == "srcadr"@ + seq!['='] + "INIT"@ && is_word("srcadr"@) && !"INIT"@.contains(',')) by {
        reveal_strlit("srcadr=INIT");
        reveal_strlit("srcadr");
        reveal_strlit("INIT");
        assert("srcadr=INIT"@ =~= "srcadr"@ + seq!['='] + "INIT"@);
    }
    lemma_one_pair("srcadr"@, "INIT"@, wanted);
    assert(",srcport=123"@ == seq![','] + "srcport"@ + seq!['='] + "123"@ && is_word("srcport"@) && !"123"@.contains(',')) by {
        reveal_strlit(",srcport=123");
        reveal_strlit("srcport");
        reveal_strlit("123");
        assert(",srcport=123"@ =~= seq![','] + "srcport"@ + seq!['='] + "123"@);
    }
    lemma_closed("srcadr=INIT"@, ",srcport=123"@, "srcport"@, "123"@, wanted);
    assert(",refid=INIT"@ == seq![','] + "refid"@ + seq!['='] + "INIT"@ && is_word("refid"@) && !"INIT"@.contains(',')) by {
        reveal_strlit(",refid=INIT");
        reveal_strlit("refid");
        reveal_strlit("INIT");
        assert(",refid=INIT"@ =~= seq![','] + "refid"@ + seq!['='] + "INIT"@);
    }
    lemma_closed("srcadr=INIT"@ + ",srcport=123"@, ",refid=INIT"@, "refid"@, "INIT"@, wanted);
    assert(",stratum=16"@ == seq![','] + "stratum"@ + seq!['='] + "16"@ && is_word("stratum"@) && !"16"@.contains(',')) by {
        reveal_strlit(",stratum=16");
        reveal_strlit("stratum");
        reveal_strlit("16");
        assert(",stratum=16"@ =~= seq![','] + "stratum"@ + seq!['='] + "16"@);
    }
    lemma_closed("srcadr=INIT"@ + ",srcport=123"@ + ",refid=INIT"@, ",stratum=16"@, "stratum"@, "16"@, wanted);
    assert(",leap=11"@ == seq![','] + "leap"@ + seq!['='] + "11"@ && is_word("leap"@) && !"11"@.contains(',')) by {
        reveal_strlit(",leap=11");
        reveal_strlit("leap");
        reveal_strlit("11");
        assert(",leap=11"@ =~= seq![','] + "leap"@ + seq!['='] + "11"@);
    }
    lemma_closed("srcadr=INIT"@ + ",srcport=123"@ + ",refid=INIT"@ + ",stratum=16"@, ",leap=11"@, "leap"@, "11"@, wanted);
    assert(",hmode=3"@ == seq![','] + "hmode"@ + seq!['='] + "3"@ && is_word("hmode"@) && !"3"@.contains(',')) by {
        reveal_strlit(",hmode=3");
        reveal_strlit("hmode");
        reveal_strlit("3");
        assert(",hmode=3"@ =~= seq![','] + "hmode"@ + seq!['='] + "3"@);
    }
    lemma_closed("srcadr=INIT"@ + ",srcport=123"@ + ",refid=INIT"@ + ",stratum=16"@ + ",leap=11"@, ",hmode=3"@, "hmode"@, "3"@, wanted);
    assert(",pmode=4"@ == seq![','] + "pmode"@ + seq!['='] + "4"@ && is_word("pmode"@) && !"4"@.contains(',')) by {
        reveal_strlit(",pmode=4");
        reveal_strlit("pmode");
        reveal_strlit("4");
        assert(",pmode=4"@ =~= seq![','] + "pmode"@ + seq!['='] + "4"@);
    }
    lemma_closed("srcadr=INIT"@ + ",srcport=123"@ + ",refid=INIT"@ + ",stratum=16"@ + ",leap=11"@ + ",hmode=3"@, ",pmode=4"@, "pmode"@, "4"@, wanted);
    assert(",hpoll=6"@ == seq![','] + "hpoll"@ + seq!['='] + "6"@ && is_word("hpoll"@) && !"6"@.contains(',')) by {
        reveal_strlit(",hpoll=6");
        reveal_strlit("hpoll");
        reveal_strlit("6");
        assert(",hpoll=6"@ =~= seq![','] + "hpoll"@ + seq!['='] + "6"@);
    }
    lemma_closed("srcadr=INIT"@ + ",srcport=123"@ + ",refid=INIT"@ + ",stratum=16"@ + ",leap=11"@ + ",hmode=3"@ + ",pmode=4"@, ",hpoll=6"@, "hpoll"@, "6"@, wanted);
    assert(",ppoll=6"@ == seq![','] + "ppoll"@ + seq!['='] + "6"@ && is_word("ppoll"@) && !"6"@.contains(',')) by {
        reveal_strlit(",ppoll=6");
        reveal_strlit("ppoll");
        reveal_strlit("6");
        assert(",ppoll=6"@ =~= seq![','] + "ppoll"@ + seq!['='] + "6"@);
    }
    lemma_closed("srcadr=INIT"@ + ",srcport=123"@ + ",refid=INIT"@ + ",stratum=16"@ + ",leap=11"@ + ",hmode=3"@ + ",pmode=4"@ + ",hpoll=6"@, ",ppoll=6"@, "ppoll"@, "6"@, wanted);
}

/// Part of the variables.
proof fn lemma_peer_unsynced_2(acc: Seq<char>, dp: DisciplineParams, m: ServoMetrics, wanted: Seq<char>)
    requires
        is_word(wanted),
    ensures
        variable(acc + ",reach=0,delay=0.001,offset=0.000,jitter=0.000,dispersion=5000.000,xleave=0.000"@, wanted) == if variable(acc, wanted) is Some {
            variable(acc, wanted)
        } else if wanted == "reach"@ {
            Some("0"@)
        } else if wanted == "delay"@ {
            Some("0.001"@)
        } else if wanted == "offset"@ {
            Some("0.000"@)
        } else if wanted == "jitter"@ {
            Some("0.000"@)
        } else if wanted == "dispersion"@ {
            Some("5000.000"@)
        } else if wanted == "xleave"@ {
            Some("0.000"@)
        } else {
            None
        },
{
    lemma_all_values(dp, m);
    assert(",reach=0,delay=0.001,offset=0.000,jitter=0.000,dispersion=5000.000,xleave=0.000"@ == ",reach=0"@ + ",delay=0.001"@ + ",offset=0.000"@ + ",jitter=0.000"@ + ",dispersion=5000.000"@ + ",xleave=0.000"@) by {
        reveal_strlit(",reach=0,delay=0.001,offset=0.000,jitter=0.000,dispersion=5000.000,xleave=0.000");
        reveal_strlit(",reach=0");
        reveal_strlit(",delay=0.001");
        reveal_strlit(",offset=0.000");
        reveal_strlit(",jitter=0.000");
        reveal_strlit(",dispersion=5000.000");
        reveal_strlit(",xleave=0.000");
        assert(",reach=0,delay=0.001,offset=0.000,jitter=0.000,dispersion=5000.000,xleave=0.000"@ =~= ",reach=0"@ + ",delay=0.001"@ + ",offset=0.000"@ + ",jitter=0.000"@ + ",dispersion=5000.000"@ + ",xleave=0.000"@);
    }
    assert(",reach=0"@ == seq![','] + "reach"@ + seq!['='] + "0"@ && is_word("reach"@) && !"0"@.contains(',')) by {
        reveal_strlit(",reach=0");
        reveal_strlit("reach");
        reveal_strlit("0");
        assert(",reach=0"@ =~= seq![','] + "reach"@ + seq!['='] + "0"@);
    }
    lemma_closed(acc, ",reach=0"@, "reach"@, "0"@, wanted);
    assert(",delay=0.001"@ == seq![','] + "delay"@ + seq!['='] + "0.001"@ && is_word("delay"@) && !"0.001"@.contains(',')) by {
        reveal_strlit(",delay=0.001");
        reveal_strlit("delay");
        reveal_strlit("0.001");
        assert(",delay=0.001"@ =~= seq![','] + "delay"@ + seq!['='] + "0.001"@);
    }
    lemma_closed(acc + ",reach=0"@, ",delay=0.001"@, "delay"@, "0.001"@, wanted);
    assert(",offset=0.000"@ == seq![','] + "offset"@ + seq!['='] + "0.000"@ && is_word("offset"@) && !"0.000"@.contains(',')) by {
        reveal_strlit(",offset=0.000");
        reveal_strlit("offset");
        reveal_strlit("0.000");
        assert(",offset=0.000"@ =~= seq![','] + "offset"@ + seq!['='] + "0.000"@);
    }
    lemma_closed(acc + ",reach=0"@ + ",delay=0.001"@, ",offset=0.000"@, "offset"@, "0.000"@, wanted);
    assert(",jitter=0.000"@ == seq![','] + "jitter"@ + seq!['='] + "0.000"@ && is_word("jitter"@) && !"0.000"@.contains(',')) by {
        reveal_strlit(",jitter=0.000");
        reveal_strlit("jitter");
        reveal_strlit("0.000");
        assert(",jitter=0.000"@ =~= seq![','] + "jitter"@ + seq!['='] + "0.000"@);
    }
    lemma_closed(acc + ",reach=0"@ + ",delay=0.001"@ + ",offset=0.000"@, ",jitter=0.000"@, "jitter"@, "0.000"@, wanted);
    assert(",dispersion=5000.000"@ == seq![','] + "dispersion"@ + seq!['='] + "5000.000"@ && is_word("dispersion"@) && !"5000.000"@.contains(',')) by {
        reveal_strlit(",dispersion=5000.000");
        reveal_strlit("dispersion");
        reveal_strlit("5000.000");
        assert(",dispersion=5000.000"@ =~= seq![','] + "dispersion"@ + seq!['='] + "5000.000"@);
    }
    lemma_closed(acc + ",reach=0"@ + ",delay=0.001"@ + ",offset=0.000"@ + ",jitter=0.000"@, ",dispersion=5000.000"@, "dispersion"@, "5000.000"@, wanted);
    assert(",xleave=0.000"@ == seq![','] + "xleave"@ + seq!['='] + "0.000"@ && is_word("xleave"@) && !"0.000"@.contains(',')) by {
        reveal_strlit(",xleave=0.000");
        reveal_strlit("xleave");
        reveal_strlit("0.000");
        assert(",xleave=0.000"@ =~= seq![','] + "xleave"@ + seq!['='] + "0.000"@);
    }
    lemma_closed(acc + ",reach=0"@ + ",delay=0.001"@ + ",offset=0.000"@ + ",jitter=0.000"@ + ",dispersion=5000.000"@, ",xleave=0.000"@, "xleave"@, "0.000"@, wanted);
    assert(acc + ",reach=0,delay=0.001,offset=0.000,jitter=0.000,dispersion=5000.000,xleave=0.000"@ =~= acc + ",reach=0"@ + ",delay=0.001"@ + ",offset=0.000"@ + ",jitter=0.000"@ + ",dispersion=5000.000"@ + ",xleave=0.000"@);
}

/// Part of the variables.
proof fn lemma_peer_unsynced_3(acc: Seq<char>, dp: DisciplineParams, m: ServoMetrics, wanted: Seq<char>)
    requires
        is_word(wanted),
    ensures
        variable(acc + ",filtdelay=0.001,filtoffset=0.000,filtdisp=5000.000"@, wanted) == if variable(acc, wanted) is Some {
            variable(acc, wanted)
        } else if wanted == "filtdelay"@ {
            Some("0.001"@)
        } else if wanted == "filtoffset"@ {
            Some("0.000"@)
        } else if wanted == "filtdisp"@ {
            Some("5000.000"@)
        } else {
            None
        },
{
    lemma_all_values(dp, m);
    assert(",filtdelay=0.001,filtoffset=0.000,filtdisp=5000.000"@ == ",filtdelay=0.001"@ + ",filtoffset=0.000"@ + ",filtdisp=5000.000"@) by {
        reveal_strlit(",filtdelay=0.001,filtoffset=0.000,filtdisp=5000.000");
        reveal_strlit(",filtdelay=0.001");
        reveal_strlit(",filtoffset=0.000");
        reveal_strlit(",filtdisp=5000.000");
        assert(",filtdelay=0.001,filtoffset=0.000,filtdisp=5000.000"@ =~= ",filtdelay=0.001"@ + ",filtoffset=0.000"@ + ",filtdisp=5000.000"@);
    }
    assert(",filtdelay=0.001"@ == seq![','] + "filtdelay"@ + seq!['='] + "0.001"@ && is_word("filtdelay"@) && !"0.001"@.contains(',')) by {
        reveal_strlit(",filtdelay=0.001");
        reveal_strlit("filtdelay");
        reveal_strlit("0.001");
        assert(",filtdelay=0.001"@ =~= seq![','] + "filtdelay"@ + seq!['='] + "0.001"@);
    }
    lemma_closed(acc, ",filtdelay=0.001"@, "filtdelay"@, "0.001"@, wanted);
    assert(",filtoffset=0.000"@ == seq![','] + "filtoffset"@ + seq!['='] + "0.000"@ && is_word("filtoffset"@) && !"0.000"@.contains(',')) by {
        reveal_strlit(",filtoffset=0.000");
        reveal_strlit("filtoffset");
        reveal_strlit("0.000");
        assert(",filtoffset=0.000"@ =~= seq![','] + "filtoffset"@ + seq!['='] + "0.000"@);
    }
    lemma_closed(acc + ",filtdelay=0.001"@, ",filtoffset=0.000"@, "filtoffset"@, "0.000"@, wanted);
    assert(",filtdisp=5000.000"@ == seq![','] + "filtdisp"@ + seq!['='] + "5000.000"@ && is_word("filtdisp"@) && !"5000.000"@.contains(',')) by {
        reveal_strlit(",filtdisp=5000.000");
        reveal_strlit("filtdisp");
        reveal_strlit("5000.000");
        assert(",filtdisp=5000.000"@ =~= seq![','] + "filtdisp"@ + seq!['='] + "5000.000"@);
    }
    lemma_closed(acc + ",filtdelay=0.001"@ + ",filtoffset=0.000"@, ",filtdisp=5000.000"@, "filtdisp"@, "5000.000"@, wanted);
    assert(acc + ",filtdelay=0.001,filtoffset=0.000,filtdisp=5000.000"@ =~= acc + ",filtdelay=0.001"@ + ",filtoffset=0.000"@ + ",filtdisp=5000.000"@);
}

/// Each variable is found under its name.
pub proof fn lemma_peer_unsynced(dp: DisciplineParams, m: ServoMetrics, wanted: Seq<char>)
    requires
        dp.stratum != 1,
        is_word(wanted),
    ensures
        variable(mode6::peer_vars(dp, m), wanted) == unsynced_peer(dp, m, wanted),
{
    lemma_peer_unsynced_1(dp, m, wanted);
    lemma_peer_unsynced_2("srcadr=INIT,srcport=123,refid=INIT,stratum=16,leap=11,hmode=3,pmode=4,hpoll=6,ppoll=6"@, dp, m, wanted);
    lemma_peer_unsynced_3("srcadr=INIT,srcport=123,refid=INIT,stratum=16,leap=11,hmode=3,pmode=4,hpoll=6,ppoll=6"@ + ",reach=0,delay=0.001,offset=0.000,jitter=0.000,dispersion=5000.000,xleave=0.000"@, dp, m, wanted);
}

/// The timestamp that `0x`, eight hexadecimal digits, a point and eight more stand for;
/// nothing for any other text.
pub open spec fn stamp_value(s: Seq<char>) -> Option<int> {
    if s.len() == 19 && s[0] == '0' && s[1] == 'x' && s[10] == '.' {
        match (text::hex_value(s.subrange(2, 10)), text::hex_value(s.subrange(11, 19))) {
            (Some(seconds), Some(fraction)) => Some(seconds * 0x1_0000_0000 + fraction),
            _ => None,
        }
    } else {
        None
    }
}

/// A timestamp is read back from how it is written.
pub proof fn law_timestamp_is_read_back(ts: u64)
    ensures
        stamp_value(mode6::timestamp_text(ts)) == Some(ts as int),
{
    reveal_strlit("0x");
    reveal_strlit(".");
    let high = text::padded(ts as int / 0x1_0000_0000, 16, 8);
    let low = text::padded(ts as int, 16, 8);
    text::law_hexadecimal(ts as int / 0x1_0000_0000, 8);
    text::law_hexadecimal(ts as int, 8);
    assert(vstd::arithmetic::power::pow(16, 8) == 0x1_0000_0000) by {
        reveal_with_fuel(vstd::arithmetic::power::pow, 9);
    }
    let s = mode6::timestamp_text(ts);
    assert(s.subrange(2, 10) =~= high);
    assert(s.subrange(11, 19) =~= low);
}

/// The leap indicator that two binary digits stand for; nothing for any other text.
pub open spec fn binary_pair(s: Seq<char>) -> Option<int> {
    if s.len() == 2 && '0' <= s[0] <= '1' && '0' <= s[1] <= '1' {
        Some(2 * (s[0] as int - 48) + (s[1] as int - 48))
    } else {
        None
    }
}

/// A leap indicator is read back from how it is written.
pub proof fn law_leap_is_read_back(leap: u8)
    requires
        leap <= 3,
    ensures
        binary_pair(mode6::leap_text(leap)) == Some(leap as int),
{
    reveal_strlit("00");
    reveal_strlit("01");
    reveal_strlit("10");
    reveal_strlit("11");
}

/// A frequency is read back from how it is written, and has a sign in front.
proof fn lemma_signed_frequency(ppb: int)
    ensures
        ({
            let s = mode6::plus_sign(ppb) + text::signed_thousandths(ppb);
            &&& text::decimal_thousandths(s) == Some(ppb)
            &&& s.len() > 0
            &&& s[0] == if ppb >= 0 {
                '+'
            } else {
                '-'
            }
        }),
{
    reveal_strlit("+");
    reveal_strlit("-");
    reveal_strlit("");
    text::law_thousandths_are_read_back(ppb);
    let s = text::signed_thousandths(ppb);
    if ppb < 0 {
        assert(mode6::plus_sign(ppb) + s =~= s);
    }
}

/// A server with good time reports, under the names that readers know, its stratum, leap
/// indicator, precision, dispersion in milliseconds, source, reference and current
/// timestamp.
pub proof fn law_system_state_is_reported(dp: DisciplineParams, m: ServoMetrics)
    requires
        dp.stratum == 1,
        dp.leap <= 3,
        -127 <= dp.precision,
    ensures
        ({
            let value = |name: Seq<char>| variable(mode6::system_vars(dp, m), name);
            &&& value("stratum"@) is Some && text::unsigned_number(value("stratum"@)->0, 255)
                == Some(1int)
            &&& value("leap"@) is Some && binary_pair(value("leap"@)->0) == Some(dp.leap as int)
            &&& value("precision"@) is Some && text::signed_number(
                value("precision"@)->0,
                -127,
                127,
            ) == Some(dp.precision as int)
            &&& value("rootdelay"@) == Some("0.000"@)
            &&& value("rootdisp"@) is Some && text::decimal_thousandths(value("rootdisp"@)->0)
                == Some(dp.root_disp_us as int)
            &&& value("refid"@) == Some("GPS"@)
            &&& value("reftime"@) is Some && stamp_value(value("reftime"@)->0) == Some(
                dp.ref_ts as int,
            )
            &&& value("clock"@) is Some && stamp_value(value("clock"@)->0) == Some(
                dp.current_ts as int,
            )
        }),
{
    lemma_names();
    lemma_system_synced(dp, m, "stratum"@);
    lemma_system_synced(dp, m, "leap"@);
    lemma_system_synced(dp, m, "precision"@);
    lemma_system_synced(dp, m, "rootdelay"@);
    lemma_system_synced(dp, m, "rootdisp"@);
    lemma_system_synced(dp, m, "refid"@);
    lemma_system_synced(dp, m, "reftime"@);
    lemma_system_synced(dp, m, "clock"@);
    text::law_number_is_read_back(1, 255);
    law_leap_is_read_back(dp.leap);
    text::law_signed_number_is_read_back(dp.precision as int, 127);
    text::law_thousandths_are_read_back(dp.root_disp_us as int);
    law_timestamp_is_read_back(dp.ref_ts);
    law_timestamp_is_read_back(dp.current_ts);
}

/// A server with good time reports its measurements under the names that readers know:
/// the phase error in milliseconds as offset, the learned frequency in parts per million
/// with its sign, the smoothed error of the pulses in milliseconds as jitter, and the
/// size of the frequency as wander.
pub proof fn law_system_measurements_are_reported(dp: DisciplineParams, m: ServoMetrics)
    requires
        dp.stratum == 1,
        m.pps_jitter_ps <= 1_000_000_000_000_000,
    ensures
        ({
            let value = |name: Seq<char>| variable(mode6::system_vars(dp, m), name);
            let number = |name: Seq<char>| text::decimal_thousandths(value(name)->0);
            &&& value("offset"@) is Some && number("offset"@) == Some(m.pps_offset_us as int)
            &&& value("frequency"@) is Some && number("frequency"@) == Some(m.freq_ppb as int)
            &&& value("frequency"@)->0[0] == if m.freq_ppb >= 0 {
                '+'
            } else {
                '-'
            }
            &&& value("sys_jitter"@) is Some && is_nearest_us(
                number("sys_jitter"@),
                m.pps_jitter_ps as int,
            )
            &&& value("clk_jitter"@) == value("sys_jitter"@)
            &&& value("clk_wander"@) is Some && number("clk_wander"@) == Some(
                if m.freq_ppb < 0 {
                    -m.freq_ppb
                } else {
                    m.freq_ppb as int
                },
            )
            &&& value("peer"@) == Some("1"@)
        }),
{
    lemma_names();
    lemma_system_synced(dp, m, "offset"@);
    lemma_system_synced(dp, m, "frequency"@);
    lemma_system_synced(dp, m, "sys_jitter"@);
    lemma_system_synced(dp, m, "clk_jitter"@);
    lemma_system_synced(dp, m, "clk_wander"@);
    lemma_system_synced(dp, m, "peer"@);
    text::law_thousandths_are_read_back(m.pps_offset_us as int);
    lemma_signed_frequency(m.freq_ppb as int);
    law_shown_duration(m.pps_jitter_ps as int);
    text::law_thousandths_are_read_back(mode6::shown_us(m.pps_jitter_ps as int));
    text::law_thousandths_are_read_back(mode6::magnitude(m.freq_ppb as int));
}

/// Whether a number is that of the microseconds nearest to a duration, one at least.
pub open spec fn is_nearest_us(number: Option<int>, ps: int) -> bool {
    match number {
        Some(us) => if ps < 1_000_000 {
            us == 1
        } else {
            -500_000 <= 1_000_000 * us - ps <= 500_000
        },
        None => false,
    }
}

/// A server without good time says so: stratum 16, leap indicator 3, source `INIT`, no
/// measurements, and no association.
pub proof fn law_system_without_good_time(dp: DisciplineParams, m: ServoMetrics)
    requires
        dp.stratum != 1,
        -127 <= dp.precision,
    ensures
        ({
            let value = |name: Seq<char>| variable(mode6::system_vars(dp, m), name);
            &&& value("stratum"@) == Some("16"@)
            &&& value("leap"@) == Some("11"@)
            &&& value("precision"@) is Some && text::signed_number(
                value("precision"@)->0,
                -127,
                127,
            ) == Some(dp.precision as int)
            &&& value("rootdisp"@) is Some && text::decimal_thousandths(value("rootdisp"@)->0)
                == Some(dp.root_disp_us as int)
            &&& value("refid"@) == Some("INIT"@)
            &&& value("reftime"@) is Some && stamp_value(value("reftime"@)->0) == Some(
                dp.ref_ts as int,
            )
            &&& value("clock"@) is Some && stamp_value(value("clock"@)->0) == Some(
                dp.current_ts as int,
            )
            &&& value("offset"@) == Some("0.000"@)
            &&& value("frequency"@) == Some("+0.000"@)
            &&& value("sys_jitter"@) == Some("0.000"@)
            &&& value("clk_jitter"@) == Some("0.000"@)
            &&& value("clk_wander"@) == Some("0.000"@)
            &&& value("peer"@) == Some("0"@)
        }),
{
    lemma_names();
    lemma_system_unsynced(dp, m, "stratum"@);
    lemma_system_unsynced(dp, m, "leap"@);
    lemma_system_unsynced(dp, m, "precision"@);
    lemma_system_unsynced(dp, m, "rootdisp"@);
    lemma_system_unsynced(dp, m, "refid"@);
    lemma_system_unsynced(dp, m, "reftime"@);
    lemma_system_unsynced(dp, m, "clock"@);
    lemma_system_unsynced(dp, m, "offset"@);
    lemma_system_unsynced(dp, m, "frequency"@);
    lemma_system_unsynced(dp, m, "sys_jitter"@);
    lemma_system_unsynced(dp, m, "clk_jitter"@);
    lemma_system_unsynced(dp, m, "clk_wander"@);
    lemma_system_unsynced(dp, m, "peer"@);
    text::law_signed_number_is_read_back(dp.precision as int, 127);
    text::law_thousandths_are_read_back(dp.root_disp_us as int);
    law_timestamp_is_read_back(dp.ref_ts);
    law_timestamp_is_read_back(dp.current_ts);
}

/// The association of a server with good time reports source, stratum, leap indicator
/// and reach, and its measurements: the smoothed time that an answer takes as delay, the
/// phase error as offset, the smoothed error of the pulses as jitter, and the dispersion.
pub proof fn law_peer_is_reported(dp: DisciplineParams, m: ServoMetrics)
    requires
        dp.stratum == 1,
        dp.leap <= 3,
        m.pps_jitter_ps <= 1_000_000_000_000_000,
        m.proc_delay_ps <= 1_000_000_000_000_000,
    ensures
        ({
            let value = |name: Seq<char>| variable(mode6::peer_vars(dp, m), name);
            let number = |name: Seq<char>| text::decimal_thousandths(value(name)->0);
            &&& value("srcadr"@) == Some("GPS"@)
            &&& value("srcport"@) == Some("123"@)
            &&& value("refid"@) == Some("GPS"@)
            &&& value("stratum"@) is Some && text::unsigned_number(value("stratum"@)->0, 255)
                == Some(1int)
            &&& value("leap"@) is Some && binary_pair(value("leap"@)->0) == Some(dp.leap as int)
            &&& value("reach"@) == Some("255"@)
            &&& value("delay"@) is Some && is_nearest_us(number("delay"@), m.proc_delay_ps as int)
            &&& value("offset"@) is Some && number("offset"@) == Some(m.pps_offset_us as int)
            &&& value("jitter"@) is Some && is_nearest_us(number("jitter"@), m.pps_jitter_ps as int)
            &&& value("dispersion"@) is Some && number("dispersion"@) == Some(
                dp.root_disp_us as int,
            )
            &&& value("filtdelay"@) == value("delay"@)
            &&& value("filtoffset"@) == value("offset"@)
            &&& value("filtdisp"@) == value("jitter"@)
        }),
{
    lemma_names();
    lemma_peer_names();
    lemma_peer_synced(dp, m, "srcadr"@);
    lemma_peer_synced(dp, m, "srcport"@);
    lemma_peer_synced(dp, m, "refid"@);
    lemma_peer_synced(dp, m, "stratum"@);
    lemma_peer_synced(dp, m, "leap"@);
    lemma_peer_synced(dp, m, "reach"@);
    lemma_peer_synced(dp, m, "delay"@);
    lemma_peer_synced(dp, m, "offset"@);
    lemma_peer_synced(dp, m, "jitter"@);
    lemma_peer_synced(dp, m, "dispersion"@);
    lemma_peer_synced(dp, m, "filtdelay"@);
    lemma_peer_synced(dp, m, "filtoffset"@);
    lemma_peer_synced(dp, m, "filtdisp"@);
    text::law_number_is_read_back(1, 255);
    law_leap_is_read_back(dp.leap);
    text::law_thousandths_are_read_back(m.pps_offset_us as int);
    text::law_thousandths_are_read_back(dp.root_disp_us as int);
    law_shown_duration(m.pps_jitter_ps as int);
    law_shown_duration(m.proc_delay_ps as int);
    text::law_thousandths_are_read_back(mode6::shown_us(m.pps_jitter_ps as int));
    text::law_thousandths_are_read_back(mode6::shown_us(m.proc_delay_ps as int));
}

/// The association of a server without good time has no source, is out of reach and
/// reports a dispersion of five seconds.
pub proof fn law_peer_without_good_time(dp: DisciplineParams, m: ServoMetrics)
    requires
        dp.stratum != 1,
    ensures
        ({
            let value = |name: Seq<char>| variable(mode6::peer_vars(dp, m), name);
            &&& value("srcadr"@) == Some("INIT"@)
            &&& value("refid"@) == Some("INIT"@)
            &&& value("stratum"@) == Some("16"@)
            &&& value("leap"@) == Some("11"@)
            &&& value("reach"@) == Some("0"@)
            &&& value("delay"@) == Some("0.001"@)
            &&& value("offset"@) == Some("0.000"@)
            &&& value("jitter"@) == Some("0.000"@)
            &&& value("dispersion"@) == Some("5000.000"@)
            &&& value("filtdisp"@) == Some("5000.000"@)
        }),
{
    lemma_names();
    lemma_peer_names();
    lemma_peer_unsynced(dp, m, "srcadr"@);
    lemma_peer_unsynced(dp, m, "refid"@);
    lemma_peer_unsynced(dp, m, "stratum"@);
    lemma_peer_unsynced(dp, m, "leap"@);
    lemma_peer_unsynced(dp, m, "reach"@);
    lemma_peer_unsynced(dp, m, "delay"@);
    lemma_peer_unsynced(dp, m, "offset"@);
    lemma_peer_unsynced(dp, m, "jitter"@);
    lemma_peer_unsynced(dp, m, "dispersion"@);
    lemma_peer_unsynced(dp, m, "filtdisp"@);
}

/// A request for the variables of association 0 is answered with those of the system,
/// one for association 1 with those of the association, in full as long as the header can
/// announce them.
pub proof fn law_variables_are_sent(
    req: Seq<u8>,
    version: u8,
    dp: DisciplineParams,
    m: ServoMetrics,
)
    requires
        req.len() >= 12,
        req[1] % 32 == 2,
        req[6] == 0,
        req[7] <= 1,
    ensures
        ({
            let vars = if req[7] == 0 {
                mode6::system_vars(dp, m)
            } else {
                mode6::peer_vars(dp, m)
            };
            let resp = mode6::control_response(req, version, dp, m);
            let sent = vstd::utf8::encode_utf8(vars);
            sent.len() <= 65_535 ==> resp[10] * 256 + resp[11] == sent.len() && resp.subrange(
                12,
                12 + sent.len() as int,
            ) == sent && vstd::utf8::decode_utf8(resp.subrange(12, 12 + sent.len() as int)) == vars
        }),
{
    mode6::law_framing(req, version, dp, m);
    let vars = if req[7] == 0 {
        mode6::system_vars(dp, m)
    } else {
        mode6::peer_vars(dp, m)
    };
    let sent = vstd::utf8::encode_utf8(vars);
    assert(mode6::payload(req, dp, m) == sent);
    assert(sent.take(sent.len() as int) == sent);
    vstd::utf8::encode_utf8_decode_utf8(vars);
}

/// The status words say whether the time is good: in the header the leap indicator and
/// the source, and in answer to a request for status words the one association, selected
/// and reachable or not.
pub proof fn law_status_words(req: Seq<u8>, version: u8, dp: DisciplineParams, m: ServoMetrics)
    requires
        dp.leap <= 3,
    ensures
        ({
            let resp = mode6::control_response(req, version, dp, m);
            &&& resp[4] / 64 == dp.leap
            &&& resp[4] % 64 == if dp.stratum == 1 {
                4int
            } else {
                0
            }
            &&& resp[5] == 0 && resp[8] == 0 && resp[9] == 0
            &&& resp[0] / 8 == if 1 <= version <= 4 {
                version as int
            } else {
                4
            }
            &&& req[1] % 32 == 1 ==> resp.len() == 16 && resp[12] == 0 && resp[13] == 1 && resp[14]
                == (if dp.stratum == 1 {
                0xD2int
            } else {
                0x10
            }) && resp[15] == 0
        }),
{
    let resp = mode6::control_response(req, version, dp, m);
    let head = mode6::header(req, version, dp, m);
    assert(resp[0] == head[0] && resp[4] == head[4] && resp[5] == head[5] && resp[8] == head[8]
        && resp[9] == head[9]);
    if req[1] % 32 == 1 {
        let body = mode6::payload(req, dp, m);
        assert(body.len() == 4);
        assert(resp[12] == body[0] && resp[13] == body[1] && resp[14] == body[2] && resp[15]
            == body[3]);
    }
}

/// The names of the system variables are words, and some of their characters tell them
/// apart.
proof fn lemma_names()
    ensures
        is_word("stratum"@) && "stratum"@.len() == 7,
        "stratum"@[0] == 's' && "stratum"@[1] == 't' && "stratum"@[2] == 'r' && "stratum"@[4] == 't',
        is_word("leap"@) && "leap"@.len() == 4,
        "leap"@[0] == 'l' && "leap"@[1] == 'e' && "leap"@[2] == 'a',
        is_word("precision"@) && "precision"@.len() == 9,
        "precision"@[0] == 'p' && "precision"@[1] == 'r' && "precision"@[2] == 'e' && "precision"@[4] == 'i',
        is_word("rootdelay"@) && "rootdelay"@.len() == 9,
        "rootdelay"@[0] == 'r' && "rootdelay"@[1] == 'o' && "rootdelay"@[2] == 'o' && "rootdelay"@[4] == 'd',
        is_word("rootdisp"@) && "rootdisp"@.len() == 8,
        "rootdisp"@[0] == 'r' && "rootdisp"@[1] == 'o' && "rootdisp"@[2] == 'o' && "rootdisp"@[4] == 'd',
        is_word("refid"@) && "refid"@.len() == 5,
        "refid"@[0] == 'r' && "refid"@[1] == 'e' && "refid"@[2] == 'f' && "refid"@[4] == 'd',
        is_word("reftime"@) && "reftime"@.len() == 7,
        "reftime"@[0] == 'r' && "reftime"@[1] == 'e' && "reftime"@[2] == 'f' && "reftime"@[4] == 'i',
        is_word("clock"@) && "clock"@.len() == 5,
        "clock"@[0] == 'c' && "clock"@[1] == 'l' && "clock"@[2] == 'o' && "clock"@[4] == 'k',
        is_word("offset"@) && "offset"@.len() == 6,
        "offset"@[0] == 'o' && "offset"@[1] == 'f' && "offset"@[2] == 'f' && "offset"@[4] == 'e',
        is_word("frequency"@) && "frequency"@.len() == 9,
        "frequency"@[0] == 'f' && "frequency"@[1] == 'r' && "frequency"@[2] == 'e' && "frequency"@[4] == 'u',
        is_word("sys_jitter"@) && "sys_jitter"@.len() == 10,
        "sys_jitter"@[0] == 's' && "sys_jitter"@[1] == 'y' && "sys_jitter"@[2] == 's' && "sys_jitter"@[4] == 'j',
        is_word("clk_jitter"@) && "clk_jitter"@.len() == 10,
        "clk_jitter"@[0] == 'c' && "clk_jitter"@[1] == 'l' && "clk_jitter"@[2] == 'k' && "clk_jitter"@[4] == 'j',
        is_word("clk_wander"@) && "clk_wander"@.len() == 10,
        "clk_wander"@[0] == 'c' && "clk_wander"@[1] == 'l' && "clk_wander"@[2] == 'k' && "clk_wander"@[4] == 'w',
        is_word("tc"@) && "tc"@.len() == 2,
        "tc"@[0] == 't' && "tc"@[1] == 'c',
        is_word("mintc"@) && "mintc"@.len() == 5,
        "mintc"@[0] == 'm' && "mintc"@[1] == 'i' && "mintc"@[2] == 'n' && "mintc"@[4] == 'c',
        is_word("peer"@) && "peer"@.len() == 4,
        "peer"@[0] == 'p' && "peer"@[1] == 'e' && "peer"@[2] == 'e',
        is_word("system"@) && "system"@.len() == 6,
        "system"@[0] == 's' && "system"@[1] == 'y' && "system"@[2] == 's' && "system"@[4] == 'e',
{
    reveal_strlit("stratum");
    reveal_strlit("leap");
    reveal_strlit("precision");
    reveal_strlit("rootdelay");
    reveal_strlit("rootdisp");
    reveal_strlit("refid");
    reveal_strlit("reftime");
    reveal_strlit("clock");
    reveal_strlit("offset");
    reveal_strlit("frequency");
    reveal_strlit("sys_jitter");
    reveal_strlit("clk_jitter");
    reveal_strlit("clk_wander");
    reveal_strlit("tc");
    reveal_strlit("mintc");
    reveal_strlit("peer");
    reveal_strlit("system");
}

/// The names of the variables of the association are words, and some of their characters
/// tell them apart.
proof fn lemma_peer_names()
    ensures
        is_word("srcadr"@) && "srcadr"@.len() == 6,
        "srcadr"@[0] == 's' && "srcadr"@[1] == 'r' && "srcadr"@[2] == 'c' && "srcadr"@[4] == 'd',
        is_word("srcport"@) && "srcport"@.len() == 7,
        "srcport"@[0] == 's' && "srcport"@[1] == 'r' && "srcport"@[2] == 'c' && "srcport"@[4] == 'o',
        is_word("refid"@) && "refid"@.len() == 5,
        "refid"@[0] == 'r' && "refid"@[1] == 'e' && "refid"@[2] == 'f' && "refid"@[4] == 'd',
        is_word("stratum"@) && "stratum"@.len() == 7,
        "stratum"@[0] == 's' && "stratum"@[1] == 't' && "stratum"@[2] == 'r' && "stratum"@[4] == 't',
        is_word("leap"@) && "leap"@.len() == 4,
        "leap"@[0] == 'l' && "leap"@[1] == 'e' && "leap"@[2] == 'a',
        is_word("hmode"@) && "hmode"@.len() == 5,
        "hmode"@[0] == 'h' && "hmode"@[1] == 'm' && "hmode"@[2] == 'o' && "hmode"@[4] == 'e',
        is_word("pmode"@) && "pmode"@.len() == 5,
        "pmode"@[0] == 'p' && "pmode"@[1] == 'm' && "pmode"@[2] == 'o' && "pmode"@[4] == 'e',
        is_word("hpoll"@) && "hpoll"@.len() == 5,
        "hpoll"@[0] == 'h' && "hpoll"@[1] == 'p' && "hpoll"@[2] == 'o' && "hpoll"@[4] == 'l',
        is_word("ppoll"@) && "ppoll"@.len() == 5,
        "ppoll"@[0] == 'p' && "ppoll"@[1] == 'p' && "ppoll"@[2] == 'o' && "ppoll"@[4] == 'l',
        is_word("reach"@) && "reach"@.len() == 5,
        "reach"@[0] == 'r' && "reach"@[1] == 'e' && "reach"@[2] == 'a' && "reach"@[4] == 'h',
        is_word("delay"@) && "delay"@.len() == 5,
        "delay"@[0] == 'd' && "delay"@[1] == 'e' && "delay"@[2] == 'l' && "delay"@[4] == 'y',
        is_word("offset"@) && "offset"@.len() == 6,
        "offset"@[0] == 'o' && "offset"@[1] == 'f' && "offset"@[2] == 'f' && "offset"@[4] == 'e',
        is_word("jitter"@) && "jitter"@.len() == 6,
        "jitter"@[0] == 'j' && "jitter"@[1] == 'i' && "jitter"@[2] == 't' && "jitter"@[4] == 'e',
        is_word("dispersion"@) && "dispersion"@.len() == 10,
        "dispersion"@[0] == 'd' && "dispersion"@[1] == 'i' && "dispersion"@[2] == 's' && "dispersion"@[4] == 'e',
        is_word("xleave"@) && "xleave"@.len() == 6,
        "xleave"@[0] == 'x' && "xleave"@[1] == 'l' && "xleave"@[2] == 'e' && "xleave"@[4] == 'v',
        is_word("filtdelay"@) && "filtdelay"@.len() == 9,
        "filtdelay"@[0] == 'f' && "filtdelay"@[1] == 'i' && "filtdelay"@[2] == 'l' && "filtdelay"@[4] == 'd',
        is_word("filtoffset"@) && "filtoffset"@.len() == 10,
        "filtoffset"@[0] == 'f' && "filtoffset"@[1] == 'i' && "filtoffset"@[2] == 'l' && "filtoffset"@[4] == 'o',
        is_word("filtdisp"@) && "filtdisp"@.len() == 8,
        "filtdisp"@[0] == 'f' && "filtdisp"@[1] == 'i' && "filtdisp"@[2] == 'l' && "filtdisp"@[4] == 'd',
{
    reveal_strlit("srcadr");
    reveal_strlit("srcport");
    reveal_strlit("refid");
    reveal_strlit("stratum");
    reveal_strlit("leap");
    reveal_strlit("hmode");
    reveal_strlit("pmode");
    reveal_strlit("hpoll");
    reveal_strlit("ppoll");
    reveal_strlit("reach");
    reveal_strlit("delay");
    reveal_strlit("offset");
    reveal_strlit("jitter");
    reveal_strlit("dispersion");
    reveal_strlit("xleave");
    reveal_strlit("filtdelay");
    reveal_strlit("filtoffset");
    reveal_strlit("filtdisp");
}

} // verus!
