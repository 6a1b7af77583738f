//! Build configuration.
//!
//! The configuration is text of lines `KEY=value`, where the value may stand in
//! double quotes.

use crate::text;
use vstd::prelude::*;
use vstd::slice::slice_subrange;

verus! {

/// The text without leading double quotes.
pub open spec fn unquote_start(s: Seq<char>) -> Seq<char>
    decreases s.len(),
{
    if s.len() > 0 && s[0] == '"' {
        unquote_start(s.skip(1))
    } else {
        s
    }
}

/// The text without trailing double quotes.
pub open spec fn unquote_end(s: Seq<char>) -> Seq<char>
    decreases s.len(),
{
    if s.len() > 0 && s.last() == '"' {
        unquote_end(s.drop_last())
    } else {
        s
    }
}

/// The text without the double quotes at its ends.
pub open spec fn unquoted(s: Seq<char>) -> Seq<char> {
    unquote_end(unquote_start(s))
}

/// Cut the double quotes off both ends of a text.
pub fn unquote(s: &[char]) -> (r: &[char])
    ensures
        r@ == unquoted(s@),
{
    let n: usize = s.len();
    let mut from: usize = 0;
    assert(s@.skip(0) == s@);
    while from < n && s[from] == '"'
        invariant
            n == s@.len(),
            from <= n,
            unquote_start(s@) == unquote_start(s@.skip(from as int)),
        decreases n - from,
    {
        assert(s@.skip(from as int).skip(1) == s@.skip(from + 1));
        from = from + 1;
    }
    let mut to: usize = n;
    let ghost body = s@.skip(from as int);
    assert(unquote_start(s@) == body);
    assert(body.take(to - from) == body);
    while from < to && s[to - 1] == '"'
        invariant
            n == s@.len(),
            from <= to <= n,
            body == s@.skip(from as int),
            unquote_end(body) == unquote_end(body.take(to - from)),
        decreases to - from,
    {
        assert(body.take(to - from).last() == s@[to - 1]);
        assert(body.take(to - from).drop_last() == body.take(to - from - 1));
        to = to - 1;
    }
    assert(from < to ==> body.take(to - from).last() == s@[to - 1]);
    assert(body.take(to - from) == s@.subrange(from as int, to as int));
    slice_subrange(s, from, to)
}

/// The value that a line gives a key, if it does.
pub open spec fn line_value(line: Seq<char>, key: Seq<char>) -> Option<Seq<char>> {
    let t = text::trimmed(line);
    if text::begins_with(t, key) && t.len() > key.len() && t[key.len() as int] == '=' {
        Some(unquoted(t.skip(key.len() as int + 1)))
    } else {
        None
    }
}

/// The value of the first line that gives a key one.
pub open spec fn first_value(lines: Seq<Seq<char>>, key: Seq<char>) -> Option<Seq<char>>
    decreases lines.len(),
{
    if lines.len() == 0 {
        None
    } else if line_value(lines[0], key) is Some {
        line_value(lines[0], key)
    } else {
        first_value(lines.skip(1), key)
    }
}

/// Look up the value of a key.
pub fn read_sdkconfig_string(config: &str, key: &str) -> (r: Option<String>)
    ensures
        r is Some <==> first_value(text::fields(config@, '\n'), key@) is Some,
        r matches Some(v) ==> first_value(text::fields(config@, '\n'), key@) == Some(v@),
{
    let chars = text::chars_of(config);
    let lines = text::split(chars.as_slice(), '\n');
    let wanted = text::chars_of(key);
    let ghost all = text::fields(config@, '\n');
    let n: usize = lines.len();
    let mut i: usize = 0;
    assert(all.skip(0) == all);
    while i < n
        invariant
            n == lines@.len(),
            i <= n,
            wanted@ == key@,
            all == text::fields(config@, '\n'),
            all.len() == n,
            forall|j: int| 0 <= j < n ==> (#[trigger] lines@[j])@ == all[j],
            first_value(all, key@) == first_value(all.skip(i as int), key@),
        decreases n - i,
    {
        let line = text::trim(lines[i].as_slice());
        assert(all.skip(i as int)[0] == lines@[i as int]@);
        assert(all.skip(i as int).skip(1) == all.skip(i + 1));
        if text::starts_with(line, key) && line.len() > wanted.len() && line[wanted.len()] == '=' {
            let rest = slice_subrange(line, wanted.len() + 1, line.len());
            assert(rest@ == line@.skip(key@.len() as int + 1));
            return Some(text::string_of(unquote(rest)));
        }
        i = i + 1;
    }
    None
}

/// The seconds from a named second to the one that a PPS pulse begins: 0 if the
/// configuration says so, otherwise 1.
pub open spec fn fudge_seconds(config: Seq<char>) -> i64 {
    if first_value(
        text::fields(config, '\n'),
        "CONFIG_GPS_NTP_NMEA_PPS_FUDGE_S"@,
    ) == Some("0"@) {
        0
    } else {
        1
    }
}

/// Read the seconds from a named second to the one that a PPS pulse begins.
pub fn nmea_pps_fudge_s(config: &str) -> (r: i64)
    ensures
        r == fudge_seconds(config@),
        0 <= r <= 1,
{
    match read_sdkconfig_string(config, "CONFIG_GPS_NTP_NMEA_PPS_FUDGE_S") {
        Some(v) => {
            let zero = text::chars_of("0");
            let value = text::chars_of(v.as_str());
            if text::same(value.as_slice(), zero.as_slice()) {
                0
            } else {
                1
            }
        },
        None => 1,
    }
}

/// Read the name of the device; `espressif` if none is set.
pub fn device_hostname(config: &str) -> (r: String)
    ensures
        r@ == match first_value(text::fields(config@, '\n'), "CONFIG_LWIP_LOCAL_HOSTNAME"@) {
            Some(v) => v,
            None => "espressif"@,
        },
{
    match read_sdkconfig_string(config, "CONFIG_LWIP_LOCAL_HOSTNAME") {
        Some(v) => v,
        None => "espressif".to_owned(),
    }
}

/// Double quotes at the ends are cut off, and nothing else.
proof fn lemma_quotes_are_cut_off(s: Seq<char>)
    requires
        s.len() > 0 ==> s[0] != '"' && s.last() != '"',
    ensures
        unquoted(s) == s,
        unquoted(seq!['"'] + s + seq!['"']) == s,
{
    let q = seq!['"'] + s + seq!['"'];
    assert(q.skip(1) == s + seq!['"']);
    assert((s + seq!['"']).drop_last() == s);
    if s.len() > 0 {
        assert((s + seq!['"'])[0] == s[0]);
        reveal_with_fuel(unquote_start, 2);
        reveal_with_fuel(unquote_end, 2);
    } else {
        reveal_with_fuel(unquote_start, 3);
        assert(s + seq!['"'] == seq!['"']);
        assert(seq!['"'].skip(1) == Seq::<char>::empty());
        assert(s == Seq::<char>::empty());
    }
}

/// A line with a key, an equals sign and a value gives the key that value, with double
/// quotes around it or without, and with white space around the line or without.
pub proof fn law_setting_is_read(
    front: Seq<char>,
    key: Seq<char>,
    value: Seq<char>,
    back: Seq<char>,
)
    requires
        forall|i: int| 0 <= i < front.len() ==> text::is_white_space(#[trigger] front[i]),
        forall|i: int| 0 <= i < back.len() ==> text::is_white_space(#[trigger] back[i]),
        key.len() > 0,
        !text::is_white_space(key[0]),
        value.len() > 0,
        value[0] != '"',
        value.last() != '"',
        !text::is_white_space(value.last()),
    ensures
        line_value(front + (key + seq!['='] + value) + back, key) == Some(value),
        line_value(front + (key + seq!['='] + (seq!['"'] + value + seq!['"'])) + back, key)
            == Some(value),
{
    let plain = key + seq!['='] + value;
    let quoted = key + seq!['='] + (seq!['"'] + value + seq!['"']);
    assert(plain[0] == key[0] && quoted[0] == key[0]);
    assert(plain.last() == value.last() && quoted.last() == '"');
    text::law_white_space_is_cut_off(front, plain, back);
    text::law_white_space_is_cut_off(front, quoted, back);
    lemma_quotes_are_cut_off(value);
    let n = key.len() as int;
    assert(plain.take(n) == key && quoted.take(n) == key);
    assert(plain[n] == '=' && quoted[n] == '=');
    assert(plain.skip(n + 1) == value);
    assert(quoted.skip(n + 1) == seq!['"'] + value + seq!['"']);
}

/// The first line that gives a key a value counts, whatever comes before and after it.
pub proof fn law_first_setting_counts(
    before: Seq<Seq<char>>,
    line: Seq<char>,
    after: Seq<Seq<char>>,
    key: Seq<char>,
)
    requires
        forall|i: int| 0 <= i < before.len() ==> line_value(#[trigger] before[i], key) is None,
        line_value(line, key) is Some,
    ensures
        first_value(before + seq![line] + after, key) == line_value(line, key),
        first_value(before, key) is None,
    decreases before.len(),
{
    let all = before + seq![line] + after;
    if before.len() == 0 {
        assert(all[0] == line);
    } else {
        assert(all[0] == before[0]);
        assert(all.skip(1) == before.skip(1) + seq![line] + after);
        assert forall|i: int| 0 <= i < before.skip(1).len() implies line_value(
            #[trigger] before.skip(1)[i],
            key,
        ) is None by {
            assert(before.skip(1)[i] == before[i + 1]);
        }
        law_first_setting_counts(before.skip(1), line, after, key);
    }
}

/// A line that does not begin with the key and an equals sign gives it no value.
pub proof fn law_other_lines_give_nothing(line: Seq<char>, key: Seq<char>)
    requires
        !text::begins_with(text::trimmed(line), key + seq!['=']),
    ensures
        line_value(line, key) is None,
{
    let t = text::trimmed(line);
    if text::begins_with(t, key) && t.len() > key.len() && t[key.len() as int] == '=' {
        let n = key.len() as int;
        assert(t.take(n + 1) =~= t.take(n).push(t[n]));
        assert(t.take(n + 1) =~= key + seq!['=']);
    }
}

/// The lead of the sentences is none if the configuration says 0, and a second otherwise.
pub proof fn law_lead_of_the_sentences(config: Seq<char>)
    ensures
        ({
            let set = first_value(
                text::fields(config, '\n'),
                "CONFIG_GPS_NTP_NMEA_PPS_FUDGE_S"@,
            );
            &&& set == Some(seq!['0']) ==> fudge_seconds(config) == 0
            &&& set != Some(seq!['0']) ==> fudge_seconds(config) == 1
        }),
{
    reveal_strlit("0");
    assert("0"@ == seq!['0']);
}

} // verus!
