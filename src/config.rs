//! The program's settings and their TOML text form.
use vstd::prelude::*;

use crate::text::{chars_of, concat, find, first_occurrence, lemma_first_occurrence, occurs_at, starts_with_chars, str_eq, substring, trim_range, trimmed};

verus! {

/// The settings of the `[mop]` table.
#[derive(Debug, Clone)]
pub struct MopConfig {
    /// The command that plays a file.
    pub run: String,
    /// Whether the program closes once a file is handed to the player.
    pub auto_close: bool,
}

/// The program's settings.
#[derive(Debug, Clone)]
pub struct Config {
    pub mop: MopConfig,
}

impl Default for MopConfig {
    fn default() -> (r: MopConfig)
        ensures
            r.run@ == "mpv"@,
            r.auto_close,
    {
        MopConfig { run: String::from_str("mpv"), auto_close: true }
    }
}

impl Default for Config {
    fn default() -> (r: Config)
        ensures
            r.mop.run@ == "mpv"@,
            r.mop.auto_close,
    {
        Config { mop: MopConfig::default() }
    }
}

/// The number of `c` characters that `s` starts with.
pub open spec fn leading_count(s: Seq<char>, c: char) -> nat
    decreases s.len(),
{
    if s.len() > 0 && s[0] == c {
        1 + leading_count(s.drop_first(), c)
    } else {
        0
    }
}

/// The number of `c` characters that `s` ends with.
pub open spec fn trailing_count(s: Seq<char>, c: char) -> nat
    decreases s.len(),
{
    if s.len() > 0 && s.last() == c {
        1 + trailing_count(s.drop_last(), c)
    } else {
        0
    }
}

/// `s` without the `"` characters it starts and ends with, as `str::trim_matches('"')` gives it.
pub open spec fn unquoted(s: Seq<char>) -> Seq<char> {
    let t = s.subrange(leading_count(s, '"') as int, s.len() as int);
    t.subrange(0, t.len() - trailing_count(t, '"'))
}

/// The characters `s[lo..hi]` without leading and trailing `"`.
fn unquote_range(s: &[char], lo: usize, hi: usize) -> (r: String)
    requires
        lo <= hi <= s.len(),
    ensures
        r@ == unquoted(s@.subrange(lo as int, hi as int)),
{
    let ghost whole = s@.subrange(lo as int, hi as int);
    let mut a = lo;
    while a < hi && s[a] == '"'
        invariant
            lo <= a <= hi <= s.len(),
            whole == s@.subrange(lo as int, hi as int),
            leading_count(whole, '"') == (a - lo) + leading_count(s@.subrange(a as int, hi as int), '"'),
        decreases hi - a,
    {
        assert(s@.subrange(a as int, hi as int).drop_first() =~= s@.subrange(a + 1, hi as int));
        a = a + 1;
    }
    assert(leading_count(s@.subrange(a as int, hi as int), '"') == 0);
    assert(whole.subrange(leading_count(whole, '"') as int, whole.len() as int) =~= s@.subrange(
        a as int,
        hi as int,
    ));
    let ghost t = s@.subrange(a as int, hi as int);
    let mut b = hi;
    while b > a && s[b - 1] == '"'
        invariant
            lo <= a <= b <= hi <= s.len(),
            t == s@.subrange(a as int, hi as int),
            trailing_count(t, '"') == (hi - b) + trailing_count(s@.subrange(a as int, b as int), '"'),
        decreases b - a,
    {
        assert(s@.subrange(a as int, b as int).drop_last() =~= s@.subrange(a as int, b - 1));
        b = b - 1;
    }
    assert(trailing_count(s@.subrange(a as int, b as int), '"') == 0);
    assert(t.subrange(0, t.len() - trailing_count(t, '"')) =~= s@.subrange(a as int, b as int));
    substring(s, a, b)
}

/// The settings read so far.
pub struct Settings {
    pub run: Seq<char>,
    pub auto_close: bool,
}

/// The effect of one line: a trimmed line that starts `run = ` sets the command (its
/// surrounding quotes removed); one that starts `auto_close = ` sets the flag, true exactly
/// where the rest, trimmed, is `true`.
pub open spec fn apply_setting(st: Settings, line: Seq<char>) -> Settings {
    let l = trimmed(line);
    if 6 <= l.len() && l.subrange(0, 6) == "run = "@ {
        Settings { run: unquoted(l.subrange(6, l.len() as int)), ..st }
    } else if 13 <= l.len() && l.subrange(0, 13) == "auto_close = "@ {
        Settings { auto_close: trimmed(l.subrange(13, l.len() as int)) == "true"@, ..st }
    } else {
        st
    }
}

/// The settings of a text read line by line.
pub open spec fn settings_of(s: Seq<char>, st: Settings) -> Settings
    decreases s.len(),
{
    match first_occurrence(s, seq!['\n']) {
        None => apply_setting(st, s),
        Some(i) => if 0 <= i < s.len() {
            settings_of(s.subrange(i + 1, s.len() as int), apply_setting(st, s.subrange(0, i)))
        } else {
            st
        },
    }
}

fn apply_line(run: &mut String, auto_close: &mut bool, line: &[char])
    ensures
        (Settings { run: final(run)@, auto_close: *final(auto_close) }) == apply_setting(
            Settings { run: old(run)@, auto_close: *old(auto_close) },
            line@,
        ),
{
    assert(line@.subrange(0, line@.len() as int) =~= line@);
    let t = trim_range(line, 0, line.len());
    let l = chars_of(t.as_str());
    let run_key = chars_of("run = ");
    let auto_key = chars_of("auto_close = ");
    proof {
        reveal_strlit("run = ");
        reveal_strlit("auto_close = ");
    }
    if starts_with_chars(l.as_slice(), run_key.as_slice()) {
        *run = unquote_range(l.as_slice(), 6, l.len());
    } else if starts_with_chars(l.as_slice(), auto_key.as_slice()) {
        let v = trim_range(l.as_slice(), 13, l.len());
        *auto_close = str_eq(v.as_str(), "true");
    }
}

fn read_settings(run: &mut String, auto_close: &mut bool, s: &[char])
    ensures
        (Settings { run: final(run)@, auto_close: *final(auto_close) }) == settings_of(
            s@,
            Settings { run: old(run)@, auto_close: *old(auto_close) },
        ),
    decreases s.len(),
{
    let nl = vec!['\n'];
    assert(nl@ =~= seq!['\n']);
    proof { lemma_first_occurrence(s@, seq!['\n']); }
    match find(s, nl.as_slice()) {
        None => apply_line(run, auto_close, s),
        Some(i) => {
            assert(occurs_at(s@, seq!['\n'], i as int));
            let line = &s[0..i];
            assert(line@ =~= s@.subrange(0, i as int));
            apply_line(run, auto_close, line);
            let rest = &s[i + 1..s.len()];
            assert(rest@ =~= s@.subrange(i + 1, s@.len() as int));
            read_settings(run, auto_close, rest);
        },
    }
}

pub open spec fn bool_text(b: bool) -> Seq<char> {
    if b { "true"@ } else { "false"@ }
}

impl Config {
    /// Reads the settings from TOML text line by line, starting from the defaults (`mpv`,
    /// closing after a run); lines it does not know are passed over.
    pub fn parse_toml(content: &str) -> (r: Result<Config, String>)
        ensures
            r matches Ok(c) && (Settings { run: c.mop.run@, auto_close: c.mop.auto_close }) == settings_of(
                content@,
                Settings { run: "mpv"@, auto_close: true },
            ),
    {
        let mut run = String::from_str("mpv");
        let mut auto_close = true;
        let v = chars_of(content);
        read_settings(&mut run, &mut auto_close, v.as_slice());
        Ok(Config { mop: MopConfig { run, auto_close } })
    }

    /// The settings as TOML text.
    pub fn to_toml(&self) -> (r: String)
        ensures
            r@ == "[mop]\nrun = \""@ + self.mop.run@ + "\"\nauto_close = "@ + bool_text(self.mop.auto_close)
                + "\n"@,
    {
        let a = concat("[mop]\nrun = \"", self.mop.run.as_str());
        let b = concat(a.as_str(), "\"\nauto_close = ");
        let c = concat(b.as_str(), if self.mop.auto_close { "true" } else { "false" });
        concat(c.as_str(), "\n")
    }
}

} // verus!
