//! Pure helpers of the command-line front end: output mode resolution,
//! human formatting, and command labels.

use vstd::prelude::*;
use crate::display::{duration_text, human_duration, push_ratio, ratio_text};
use crate::text::{decimal, push_decimal};

verus! {

/// Output format.
#[derive(Debug, Clone, Copy, PartialEq, Eq, Structural)]
pub enum OutputMode {
    Human,
    Json,
}

pub open spec fn is_ws(c: char) -> bool {
    c == ' ' || c == '\t' || c == '\n' || c == '\r'
}

/// `c` equals the lower-case letter or symbol `w`, ignoring ASCII case.
pub open spec fn char_eq_ci(c: char, w: char) -> bool {
    c == w || ('a' <= w && w <= 'z' && (c as u32) + 32 == (w as u32))
}

/// `s` is `w` (lower case) up to ASCII case, with ASCII whitespace around it.
pub open spec fn word_is(s: Seq<char>, w: Seq<char>) -> bool {
    exists|i: int, j: int| #[trigger] word_at(s, w, i, j)
}

/// `s[i..j]` is `w` up to ASCII case, with only whitespace outside it.
pub open spec fn word_at(s: Seq<char>, w: Seq<char>, i: int, j: int) -> bool {
    0 <= i <= j <= s.len() && j - i == w.len()
        && (forall|k: int| 0 <= k < i ==> is_ws(#[trigger] s[k]))
        && (forall|k: int| j <= k < s.len() ==> is_ws(#[trigger] s[k]))
        && (forall|k: int| 0 <= k < w.len() ==> char_eq_ci(#[trigger] s[i + k], w[k]))
}

/// Whether `s`, trimmed and case-folded, is the lower-case word `w`.
pub fn is_word(s: &str, w: &str) -> (r: bool)
    requires
        w@.len() > 0,
        !is_ws(w@[0]),
        !is_ws(w@.last()),
        forall|k: int| 0 <= k < w@.len() ==> !('A' <= #[trigger] w@[k] && w@[k] <= 'Z'),
    ensures
        r == word_is(s@, w@),
{
    let n = s.unicode_len();
    let m = w.unicode_len();
    let mut i: usize = 0;
    while i < n && is_ws_exec(s.get_char(i))
        invariant
            n == s@.len(),
            i <= n,
            forall|k: int| 0 <= k < i ==> is_ws(#[trigger] s@[k]),
        decreases n - i,
    {
        i = i + 1;
    }
    let mut j: usize = n;
    while j > i && is_ws_exec(s.get_char(j - 1))
        invariant
            n == s@.len(),
            i <= j <= n,
            forall|k: int| j <= k < n ==> is_ws(#[trigger] s@[k]),
        decreases j,
    {
        j = j - 1;
    }
    // s[i..j] is the trimmed text: the only place the word can stand.
    proof {
        if word_is(s@, w@) {
            let (a, b) = choose|a: int, b: int| #[trigger] word_at(s@, w@, a, b);
            lemma_bounds_match(s@, w@, i as int, j as int, a, b);
        }
    }
    if j - i != m {
        return false;
    }
    let mut k: usize = 0;
    while k < m
        invariant
            n == s@.len(),
            m == w@.len(),
            i <= j <= n,
            j - i == m,
            k <= m,
            word_is(s@, w@) ==> word_at(s@, w@, i as int, j as int),
            forall|t: int| 0 <= t < i ==> is_ws(#[trigger] s@[t]),
            forall|t: int| j <= t < n ==> is_ws(#[trigger] s@[t]),
            forall|t: int| 0 <= t < k ==> char_eq_ci(#[trigger] s@[i + t], w@[t]),
        decreases m - k,
    {
        let c = s.get_char(i + k);
        let d = w.get_char(k);
        if !(c == d || ('a' <= d && d <= 'z' && (c as u32) + 32 == (d as u32))) {
            proof {
                if word_is(s@, w@) {
                    assert(char_eq_ci(s@[i + k as int], w@[k as int]));
                }
            }
            return false;
        }
        k = k + 1;
    }
    proof {
        assert(word_at(s@, w@, i as int, j as int));
    }
    true
}

/// The trimmed bounds are the only ones at which a word can stand.
proof fn lemma_bounds_match(s: Seq<char>, w: Seq<char>, i: int, j: int, a: int, b: int)
    requires
        w.len() > 0,
        !is_ws(w[0]),
        !is_ws(w.last()),
        0 <= i <= j <= s.len(),
        forall|k: int| 0 <= k < i ==> is_ws(#[trigger] s[k]),
        forall|k: int| j <= k < s.len() ==> is_ws(#[trigger] s[k]),
        i < s.len() ==> !is_ws(s[i]) || i == j,
        i < j ==> !is_ws(s[j - 1]),
        j == i ==> forall|k: int| 0 <= k < s.len() ==> is_ws(#[trigger] s[k]),
        word_at(s, w, a, b),
    ensures
        a == i && b == j,
{
    assert(char_eq_ci(s[a + 0], w[0]));
    assert(char_eq_ci(s[a + (w.len() - 1)], w[w.len() - 1]));
    assert(!is_ws(s[a])) by {
        if is_ws(s[a]) {
            assert(s[a] == w[0] || (s[a] as u32) + 32 == (w[0] as u32));
        }
    }
    assert(!is_ws(s[b - 1])) by {
        if is_ws(s[b - 1]) {
            assert(s[b - 1] == w.last() || (s[b - 1] as u32) + 32 == (w.last() as u32));
        }
    }
}

fn is_ws_exec(c: char) -> (r: bool)
    ensures
        r == is_ws(c),
{
    c == ' ' || c == '\t' || c == '\n' || c == '\r'
}

/// Output mode: the JSON flag wins; then the environment setting (`json`,
/// `human`; `auto` or anything else defers); then JSON unless stdout is a
/// terminal.
pub open spec fn output_mode_spec(json_flag: bool, env_mode: Option<Seq<char>>, tty: bool) -> OutputMode {
    let fallback = if tty { OutputMode::Human } else { OutputMode::Json };
    if json_flag {
        OutputMode::Json
    } else {
        match env_mode {
            Some(m) => if word_is(m, "json"@) {
                OutputMode::Json
            } else if word_is(m, "human"@) {
                OutputMode::Human
            } else {
                fallback
            },
            None => fallback,
        }
    }
}

pub fn resolve_output_mode(json_flag: bool, env_mode: Option<&str>, stdout_is_tty: bool) -> (r: OutputMode)
    ensures
        r == output_mode_spec(json_flag, match env_mode { Some(m) => Some(m@), None => None }, stdout_is_tty),
{
    let fallback = if stdout_is_tty { OutputMode::Human } else { OutputMode::Json };
    if json_flag {
        return OutputMode::Json;
    }
    proof {
        reveal_strlit("json");
        reveal_strlit("human");
    }
    match env_mode {
        Some(m) => if is_word(m, "json") {
            OutputMode::Json
        } else if is_word(m, "human") {
            OutputMode::Human
        } else {
            fallback
        },
        None => fallback,
    }
}

/// Size with one decimal in the largest binary unit it reaches (up to TB).
pub open spec fn format_bytes_text(bytes: nat) -> Seq<char> {
    if bytes >= 1_099_511_627_776 {
        ratio_text(bytes, 1_099_511_627_776, 1) + " TB"@
    } else if bytes >= 1_073_741_824 {
        ratio_text(bytes, 1_073_741_824, 1) + " GB"@
    } else if bytes >= 1_048_576 {
        ratio_text(bytes, 1_048_576, 1) + " MB"@
    } else if bytes >= 1024 {
        ratio_text(bytes, 1024, 1) + " KB"@
    } else {
        decimal(bytes) + " B"@
    }
}

pub fn format_bytes(bytes: u64) -> (r: String)
    ensures
        r@ == format_bytes_text(bytes as nat),
{
    let mut s = String::new();
    if bytes >= 1_099_511_627_776 {
        push_ratio(&mut s, bytes, 1_099_511_627_776, 1);
        s.append(" TB");
    } else if bytes >= 1_073_741_824 {
        push_ratio(&mut s, bytes, 1_073_741_824, 1);
        s.append(" GB");
    } else if bytes >= 1_048_576 {
        push_ratio(&mut s, bytes, 1_048_576, 1);
        s.append(" MB");
    } else if bytes >= 1024 {
        push_ratio(&mut s, bytes, 1024, 1);
        s.append(" KB");
    } else {
        push_decimal(&mut s, bytes);
        s.append(" B");
    }
    proof {
        assert(s@ =~= format_bytes_text(bytes as nat));
    }
    s
}

/// A duration in seconds, in its two largest units.
pub fn format_duration(secs: u64) -> (r: String)
    ensures
        r@ == duration_text(secs as nat),
{
    human_duration(secs)
}

/// The path itself when it fits in `max_len` characters; otherwise `...`
/// and its last `max_len - 3` characters.
pub fn truncate_path(path: &str, max_len: usize) -> (r: String)
    requires
        max_len >= 3,
    ensures
        path@.len() <= max_len ==> r@ == path@,
        path@.len() > max_len ==> r@ == "..."@ + path@.subrange(path@.len() - (max_len - 3), path@.len() as int),
{
    let n = path.unicode_len();
    if n <= max_len {
        String::from_str(path)
    } else {
        let mut s = String::from_str("...");
        s.append(path.substring_char(n - (max_len - 3), n));
        s
    }
}

/// Subcommands of `ballast`.
#[derive(Debug, Clone, Copy, PartialEq, Eq, Structural)]
pub enum BallastCommand {
    Status,
    Provision,
    Release,
    Replenish,
    Verify,
}

/// Subcommands of `config`.
#[derive(Debug, Clone, Copy, PartialEq, Eq, Structural)]
pub enum ConfigCommand {
    Path,
    Show,
    Validate,
    Diff,
    Reset,
    SetValue,
}

pub fn ballast_command_label(command: Option<BallastCommand>) -> (r: &'static str)
    ensures
        r@ == match command {
            None => "ballast"@,
            Some(BallastCommand::Status) => "ballast status"@,
            Some(BallastCommand::Provision) => "ballast provision"@,
            Some(BallastCommand::Release) => "ballast release"@,
            Some(BallastCommand::Replenish) => "ballast replenish"@,
            Some(BallastCommand::Verify) => "ballast verify"@,
        },
{
    match command {
        None => "ballast",
        Some(BallastCommand::Status) => "ballast status",
        Some(BallastCommand::Provision) => "ballast provision",
        Some(BallastCommand::Release) => "ballast release",
        Some(BallastCommand::Replenish) => "ballast replenish",
        Some(BallastCommand::Verify) => "ballast verify",
    }
}

pub fn config_command_label(command: Option<ConfigCommand>) -> (r: &'static str)
    ensures
        r@ == match command {
            None => "config"@,
            Some(ConfigCommand::Path) => "config path"@,
            Some(ConfigCommand::Show) => "config show"@,
            Some(ConfigCommand::Validate) => "config validate"@,
            Some(ConfigCommand::Diff) => "config diff"@,
            Some(ConfigCommand::Reset) => "config reset"@,
            Some(ConfigCommand::SetValue) => "config set"@,
        },
{
    match command {
        None => "config",
        Some(ConfigCommand::Path) => "config path",
        Some(ConfigCommand::Show) => "config show",
        Some(ConfigCommand::Validate) => "config validate",
        Some(ConfigCommand::Diff) => "config diff",
        Some(ConfigCommand::Reset) => "config reset",
        Some(ConfigCommand::SetValue) => "config set",
    }
}

} // verus!
