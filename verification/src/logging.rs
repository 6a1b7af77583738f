//! Log levels and where they are set.

use crate::config;
use crate::text;
use vstd::prelude::*;
use vstd::slice::slice_subrange;

verus! {

/// How much a module logs.
#[derive(Debug, Clone, Copy, PartialEq, Eq, Structural)]
pub enum LogLevel {
    /// Nothing.
    Off,
    /// Errors.
    Error,
    /// Warnings too.
    Warn,
    /// What happens too.
    Info,
    /// Details too.
    Debug,
    /// Everything.
    Verbose,
}

/// A character, in lower case if it is an ASCII letter.
pub open spec fn lower_char(c: char) -> char {
    if 'A' <= c <= 'Z' {
        (c as int + 32) as char
    } else {
        c
    }
}

/// A text with its ASCII letters in lower case.
pub open spec fn lowered(s: Seq<char>) -> Seq<char> {
    s.map_values(|c: char| lower_char(c))
}

/// Put the ASCII letters of a text in lower case.
fn lower(s: &[char]) -> (r: Vec<char>)
    ensures
        r@ == lowered(s@),
{
    let mut out: Vec<char> = Vec::new();
    let n: usize = s.len();
    let mut i: usize = 0;
    while i < n
        invariant
            n == s@.len(),
            i <= n,
            out@ == lowered(s@.take(i as int)),
        decreases n - i,
    {
        let c: char = s[i];
        let l: char = if 'A' <= c && c <= 'Z' {
            (c as u8 + 32) as char
        } else {
            c
        };
        out.push(l);
        assert(s@.take(i + 1).drop_last() == s@.take(i as int));
        assert(out@ == lowered(s@.take(i + 1)));
        i = i + 1;
    }
    assert(s@.take(n as int) == s@);
    out
}

/// The level that a word stands for, whatever its case and the white space around it.
pub open spec fn level_of(value: Seq<char>) -> Option<LogLevel> {
    let word = lowered(text::trimmed(value));
    if word == "none"@ {
        Some(LogLevel::Off)
    } else if word == "error"@ {
        Some(LogLevel::Error)
    } else if word == "warn"@ || word == "warning"@ {
        Some(LogLevel::Warn)
    } else if word == "info"@ {
        Some(LogLevel::Info)
    } else if word == "debug"@ {
        Some(LogLevel::Debug)
    } else if word == "trace"@ || word == "verbose"@ {
        Some(LogLevel::Verbose)
    } else {
        None
    }
}

/// Whether a text is a word.
fn is_word(s: &[char], word: &str) -> (r: bool)
    ensures
        r == (s@ == word@),
{
    let w = text::chars_of(word);
    text::same(s, w.as_slice())
}

/// Read a log level.
pub fn parse_level(value: &str) -> (r: Option<LogLevel>)
    ensures
        r == level_of(value@),
{
    let chars = text::chars_of(value);
    let word = lower(text::trim(chars.as_slice()));
    let w = word.as_slice();
    if is_word(w, "none") {
        Some(LogLevel::Off)
    } else if is_word(w, "error") {
        Some(LogLevel::Error)
    } else if is_word(w, "warn") || is_word(w, "warning") {
        Some(LogLevel::Warn)
    } else if is_word(w, "info") {
        Some(LogLevel::Info)
    } else if is_word(w, "debug") {
        Some(LogLevel::Debug)
    } else if is_word(w, "trace") || is_word(w, "verbose") {
        Some(LogLevel::Verbose)
    } else {
        None
    }
}

/// What the lines of the configuration give a log key: the value of the first line
/// whose left side it is. Empty lines and comments do not count, and a line without
/// an equals sign ends the search.
pub open spec fn level_text(lines: Seq<Seq<char>>, key: Seq<char>) -> Option<Seq<char>>
    decreases lines.len(),
{
    if lines.len() == 0 {
        None
    } else {
        let t = text::trimmed(lines[0]);
        let eq = text::first_index(t, '=');
        if t.len() == 0 || t[0] == '#' {
            level_text(lines.skip(1), key)
        } else if eq >= t.len() {
            None
        } else if text::trimmed(t.take(eq)) == key {
            Some(config::unquoted(text::trimmed(t.skip(eq + 1))))
        } else {
            level_text(lines.skip(1), key)
        }
    }
}

/// Look up what the configuration gives a log key.
pub fn level_from_sdkconfig_defaults(config: &str, key: &str) -> (r: Option<String>)
    ensures
        r is Some <==> level_text(text::fields(config@, '\n'), key@) is Some,
        r matches Some(v) ==> level_text(text::fields(config@, '\n'), key@) == Some(v@),
{
    let chars = text::chars_of(config);
    let lines = text::split(chars.as_slice(), '\n');
    let ghost all = text::fields(config@, '\n');
    let n: usize = lines.len();
    let mut i: usize = 0;
    assert(all.skip(0) == all);
    while i < n
        invariant
            n == lines@.len(),
            i <= n,
            all == text::fields(config@, '\n'),
            all.len() == n,
            forall|j: int| 0 <= j < n ==> (#[trigger] lines@[j])@ == all[j],
            level_text(all, key@) == level_text(all.skip(i as int), key@),
        decreases n - i,
    {
        let line = text::trim(lines[i].as_slice());
        assert(all.skip(i as int)[0] == lines@[i as int]@);
        assert(all.skip(i as int).skip(1) == all.skip(i + 1));
        if line.len() > 0 && line[0] != '#' {
            let eq: usize = text::index_of(line, '=');
            if eq >= line.len() {
                return None;
            }
            let lhs = slice_subrange(line, 0, eq);
            assert(lhs@ == line@.take(eq as int));
            if is_word(text::trim(lhs), key) {
                let rhs = slice_subrange(line, eq + 1, line.len());
                assert(rhs@ == line@.skip(eq + 1));
                return Some(text::string_of(config::unquote(text::trim(rhs))));
            }
        }
        i = i + 1;
    }
    None
}

/// The level override of a module: that of the build environment, or else that of the
/// configuration, if it stands for a level.
pub open spec fn override_level(
    config: Seq<char>,
    key: Seq<char>,
    build_env_value: Option<&str>,
) -> Option<LogLevel> {
    match build_env_value {
        Some(v) => level_of(v@),
        None => match level_text(text::fields(config, '\n'), key) {
            Some(v) => level_of(v),
            None => None,
        },
    }
}

/// Find the level override of a module.
pub fn set_level_from_key(config: &str, key: &str, build_env_value: Option<&str>) -> (r: Option<
    LogLevel,
>)
    ensures
        r == override_level(config@, key@, build_env_value),
{
    match build_env_value {
        Some(v) => parse_level(v),
        None => match level_from_sdkconfig_defaults(config, key) {
            Some(v) => parse_level(v.as_str()),
            None => None,
        },
    }
}

/// Decide whether the display is tested at start-up: if its module logs details or
/// everything.
pub fn display_boot_test_enabled(level: Option<LogLevel>) -> (r: bool)
    ensures
        r == (level == Some(LogLevel::Debug) || level == Some(LogLevel::Verbose)),
{
    matches!(level, Some(LogLevel::Debug) | Some(LogLevel::Verbose))
}

/// Lower case keeps white space apart from other characters.
proof fn lemma_lower_keeps_white_space(c: char)
    ensures
        text::is_white_space(lower_char(c)) == text::is_white_space(c),
{
}

/// Lower case and cutting the leading white space off go in any order.
proof fn lemma_trim_start_lowered(s: Seq<char>)
    ensures
        text::trim_start(lowered(s)) == lowered(text::trim_start(s)),
    decreases s.len(),
{
    if s.len() > 0 {
        lemma_lower_keeps_white_space(s[0]);
        assert(lowered(s).skip(1) == lowered(s.skip(1)));
        lemma_trim_start_lowered(s.skip(1));
    }
}

/// Lower case and cutting the trailing white space off go in any order.
proof fn lemma_trim_end_lowered(s: Seq<char>)
    ensures
        text::trim_end(lowered(s)) == lowered(text::trim_end(s)),
    decreases s.len(),
{
    if s.len() > 0 {
        lemma_lower_keeps_white_space(s.last());
        assert(lowered(s).drop_last() == lowered(s.drop_last()));
        lemma_trim_end_lowered(s.drop_last());
    }
}

/// The case of a word does not matter to its log level.
pub proof fn law_level_ignores_case(value: Seq<char>)
    ensures
        level_of(lowered(value)) == level_of(value),
{
    lemma_trim_start_lowered(value);
    lemma_trim_end_lowered(text::trim_start(value));
    let word = text::trimmed(value);
    assert(lowered(lowered(word)) == lowered(word));
}

/// A level is known by one of eight words, in any case and with white space around it.
pub proof fn law_words_for_levels(front: Seq<char>, word: Seq<char>, back: Seq<char>)
    requires
        forall|i: int| 0 <= i < front.len() ==> text::is_white_space(#[trigger] front[i]),
        forall|i: int| 0 <= i < back.len() ==> text::is_white_space(#[trigger] back[i]),
        word.len() > 0,
        !text::is_white_space(word[0]),
        !text::is_white_space(word.last()),
    ensures
        ({
            let level = level_of(front + word + back);
            let low = lowered(word);
            &&& level == Some(LogLevel::Off) <==> low == seq!['n', 'o', 'n', 'e']
            &&& level == Some(LogLevel::Error) <==> low == seq!['e', 'r', 'r', 'o', 'r']
            &&& level == Some(LogLevel::Warn) <==> low == seq!['w', 'a', 'r', 'n'] || low
                == seq!['w', 'a', 'r', 'n', 'i', 'n', 'g']
            &&& level == Some(LogLevel::Info) <==> low == seq!['i', 'n', 'f', 'o']
            &&& level == Some(LogLevel::Debug) <==> low == seq!['d', 'e', 'b', 'u', 'g']
            &&& level == Some(LogLevel::Verbose) <==> low == seq!['t', 'r', 'a', 'c', 'e'] || low
                == seq!['v', 'e', 'r', 'b', 'o', 's', 'e']
        }),
{
    text::law_white_space_is_cut_off(front, word, back);
    reveal_strlit("none");
    reveal_strlit("error");
    reveal_strlit("warn");
    reveal_strlit("warning");
    reveal_strlit("info");
    reveal_strlit("debug");
    reveal_strlit("trace");
    reveal_strlit("verbose");
    assert("none"@ =~= seq!['n', 'o', 'n', 'e']);
    assert("error"@ =~= seq!['e', 'r', 'r', 'o', 'r']);
    assert("warn"@ =~= seq!['w', 'a', 'r', 'n']);
    assert("warning"@ =~= seq!['w', 'a', 'r', 'n', 'i', 'n', 'g']);
    assert("info"@ =~= seq!['i', 'n', 'f', 'o']);
    assert("debug"@ =~= seq!['d', 'e', 'b', 'u', 'g']);
    assert("trace"@ =~= seq!['t', 'r', 'a', 'c', 'e']);
    assert("verbose"@ =~= seq!['v', 'e', 'r', 'b', 'o', 's', 'e']);
}

/// Lower case changes the letters `A` to `Z` alone, each to its small one.
pub proof fn law_lower_case(s: Seq<char>, i: int)
    requires
        0 <= i < s.len(),
    ensures
        lowered(s).len() == s.len(),
        'A' <= s[i] <= 'Z' ==> lowered(s)[i] as int == s[i] as int + 32,
        !('A' <= s[i] <= 'Z') ==> lowered(s)[i] == s[i],
{
}

/// The build environment goes before the configuration.
pub proof fn law_build_environment_goes_first(config: Seq<char>, key: Seq<char>, value: &str)
    ensures
        override_level(config, key, Some(value)) == level_of(value@),
        override_level(config, key, None) == match level_text(text::fields(config, '\n'), key) {
            Some(text) => level_of(text),
            None => None,
        },
{
}

/// A line with a key, an equals sign and a value gives the key that value, if only empty
/// lines, comments and lines of other keys come before it.
pub proof fn law_log_key_is_found(lines: Seq<Seq<char>>, key: Seq<char>, value: Seq<char>)
    requires
        lines.len() > 0,
        key.len() > 0,
        !key.contains('='),
        key[0] != '#',
        !text::is_white_space(key[0]),
        !text::is_white_space(key.last()),
        value.len() > 0,
        !text::is_white_space(value[0]),
        !text::is_white_space(value.last()),
        value[0] != '"',
        value.last() != '"',
    ensures
        lines[0] == key + seq!['='] + value ==> level_text(lines, key) == Some(value),
        text::trimmed(lines[0]).len() == 0 || text::trimmed(lines[0])[0] == '#' ==> level_text(
            lines,
            key,
        ) == level_text(lines.skip(1), key),
{
    let empty = Seq::<char>::empty();
    let line = key + seq!['='] + value;
    if lines[0] == line {
        assert(line[0] == key[0] && line.last() == value.last());
        text::law_white_space_is_cut_off(empty, line, empty);
        assert(empty + line + empty == line);
        text::law_white_space_is_cut_off(empty, key, empty);
        assert(empty + key + empty == key);
        text::law_white_space_is_cut_off(empty, value, empty);
        assert(empty + value + empty == value);
        let n = key.len() as int;
        assert forall|j: int| 0 <= j < n implies line[j] != '=' by {
            assert(line[j] == key[j] && key.contains(key[j]));
        }
        assert(line[n] == '=');
        text::lemma_first_index(line, '=', n);
        assert(line.take(n) == key);
        assert(line.skip(n + 1) == value);
        reveal_with_fuel(config::unquote_start, 2);
        reveal_with_fuel(config::unquote_end, 2);
    }
}

} // verus!
