//! Reading back the compact JSON that decision records are written in:
//! numbers, escaped strings and fixed punctuation.

use vstd::prelude::*;
use crate::decision_record::{
    factors_json, hex_char, json_escape, json_escape_char, json_head, json_scores, json_string, json_tail,
    num_field, record_json, ActionRecord, DecisionRecord, PolicyMode,
};
use crate::scoring::ScoreFactors;
use crate::guardrails::GuardStatus;
use crate::scoring::VetoReason;
use crate::text::{decimal, digit_char};

verus! {

pub open spec fn is_digit(c: char) -> bool {
    '0' <= c && c <= '9'
}

pub open spec fn digit_value(c: char) -> nat {
    ((c as u32) - ('0' as u32)) as nat
}

/// Value of a run of decimal digits.
pub open spec fn digits_value(s: Seq<char>) -> nat
    decreases s.len(),
{
    if s.len() == 0 { 0 } else { 10 * digits_value(s.drop_last()) + digit_value(s.last()) }
}

pub open spec fn all_digits(s: Seq<char>) -> bool {
    forall|k: int| 0 <= k < s.len() ==> is_digit(#[trigger] s[k])
}

proof fn lemma_digit_char(d: int)
    requires
        0 <= d < 10,
    ensures
        is_digit(digit_char(d)),
        digit_value(digit_char(d)) == d,
{
}

/// The decimal form of `n` is a non-empty run of digits worth `n`.
pub proof fn lemma_decimal_digits(n: nat)
    ensures
        decimal(n).len() >= 1,
        all_digits(decimal(n)),
        digits_value(decimal(n)) == n,
    decreases n,
{
    if n < 10 {
        lemma_digit_char(n as int);
        assert(decimal(n).drop_last() =~= Seq::<char>::empty());
        assert(digits_value(Seq::<char>::empty()) == 0);
        assert(digits_value(decimal(n)) == 10 * digits_value(decimal(n).drop_last()) + digit_value(decimal(n).last()));
    } else {
        lemma_decimal_digits(n / 10);
        lemma_digit_char((n % 10) as int);
        assert(decimal(n).drop_last() =~= decimal(n / 10));
        assert(decimal(n).last() == digit_char((n % 10) as int));
        assert(digits_value(decimal(n)) == 10 * digits_value(decimal(n).drop_last()) + digit_value(decimal(n).last()));
        assert(n == 10 * (n / 10) + n % 10) by {
            vstd::arithmetic::div_mod::lemma_fundamental_div_mod(n as int, 10);
        }
        assert forall|k: int| 0 <= k < decimal(n).len() implies is_digit(#[trigger] decimal(n)[k]) by {
            if k < decimal(n / 10).len() {
                assert(decimal(n)[k] == decimal(n / 10)[k]);
            }
        }
    }
}

/// A digit run is worth at least each of its prefixes.
proof fn lemma_digits_value_prefix(s: Seq<char>, i: int)
    requires
        0 <= i <= s.len(),
    ensures
        digits_value(s.subrange(0, i)) <= digits_value(s),
    decreases s.len() - i,
{
    if i < s.len() {
        lemma_digits_value_prefix(s, i + 1);
        assert(s.subrange(0, i + 1).drop_last() =~= s.subrange(0, i));
    } else {
        assert(s.subrange(0, i) =~= s);
    }
}

/// `s` holds the decimal form of `v` at `pos`, not followed by a digit.
pub open spec fn number_at(s: Seq<char>, pos: int, v: nat) -> bool {
    let d = decimal(v);
    0 <= pos && pos + d.len() <= s.len() && s.subrange(pos, pos + d.len()) == d
        && (pos + d.len() == s.len() || !is_digit(s[pos + d.len()]))
}

/// Reads a decimal number at `pos`; the position after it comes back too.
pub fn parse_u64(s: &str, pos: usize) -> (r: Option<(u64, usize)>)
    ensures
        forall|v: u64| number_at(s@, pos as int, v as nat) ==> r == Some((v, (pos + decimal(v as nat).len()) as usize)),
{
    let n = s.unicode_len();
    if pos >= n {
        proof {
            assert forall|v: u64| !number_at(s@, pos as int, v as nat) by {
                lemma_decimal_digits(v as nat);
            }
        }
        return None;
    }
    let mut i: usize = pos;
    let mut acc: u128 = 0;
    while i < n && '0' <= s.get_char(i) && s.get_char(i) <= '9'
        invariant
            n == s@.len(),
            pos <= i <= n,
            all_digits(s@.subrange(pos as int, i as int)),
            acc as nat == digits_value(s@.subrange(pos as int, i as int)),
            acc <= u64::MAX,
            forall|v: u64| number_at(s@, pos as int, v as nat) ==> i <= pos + decimal(v as nat).len(),
        decreases n - i,
    {
        let c = s.get_char(i);
        let d: u128 = ((c as u32) - ('0' as u32)) as u128;
        let next: u128 = acc * 10 + d;
        proof {
            let pre = s@.subrange(pos as int, i as int + 1);
            assert(pre.drop_last() =~= s@.subrange(pos as int, i as int));
            assert forall|v: u64| number_at(s@, pos as int, v as nat) implies i + 1 <= pos + decimal(v as nat).len()
                && next <= v by {
                let dv = decimal(v as nat);
                lemma_decimal_digits(v as nat);
                if i == pos + dv.len() {
                    assert(!is_digit(s@[i as int]));
                }
                let k = i + 1 - pos;
                assert(pre =~= dv.subrange(0, k));
                lemma_digits_value_prefix(dv, k);
            }
        }
        if next > u64::MAX as u128 {
            return None;
        }
        proof {
            let pre = s@.subrange(pos as int, i as int + 1);
            assert forall|k: int| 0 <= k < pre.len() implies is_digit(#[trigger] pre[k]) by {
                if k < pre.len() - 1 {
                    assert(pre[k] == s@.subrange(pos as int, i as int)[k]);
                }
            }
        }
        acc = next;
        i = i + 1;
    }
    if i == pos {
        proof {
            assert forall|v: u64| !number_at(s@, pos as int, v as nat) by {
                lemma_decimal_digits(v as nat);
                if number_at(s@, pos as int, v as nat) {
                    assert(s@[pos as int] == decimal(v as nat)[0]);
                }
            }
        }
        return None;
    }
    proof {
        assert forall|v: u64| number_at(s@, pos as int, v as nat) implies acc == v && i == pos + decimal(v as nat).len() by {
            let dv = decimal(v as nat);
            lemma_decimal_digits(v as nat);
            if i < pos + dv.len() {
                assert(s@[i as int] == dv[i - pos]);
            }
            assert(s@.subrange(pos as int, i as int) =~= dv);
        }
    }
    Some((acc as u64, i))
}

/// `x` stands in `s` at `p`.
pub open spec fn at(s: Seq<char>, p: int, x: Seq<char>) -> bool {
    0 <= p && p + x.len() <= s.len() && s.subrange(p, p + x.len()) == x
}

/// Whether `lit` stands in `s` at `pos`.
pub fn expect_at(s: &str, pos: usize, lit: &str) -> (r: Option<usize>)
    ensures
        r == if at(s@, pos as int, lit@) { Some((pos + lit@.len()) as usize) } else { None::<usize> },
{
    let n = s.unicode_len();
    let m = lit.unicode_len();
    if pos > n || m > n - pos {
        return None;
    }
    let mut k: usize = 0;
    while k < m
        invariant
            n == s@.len(),
            m == lit@.len(),
            pos + m <= n,
            k <= m,
            forall|t: int| 0 <= t < k ==> s@[pos + t] == lit@[t],
        decreases m - k,
    {
        if s.get_char(pos + k) != lit.get_char(k) {
            proof {
                if at(s@, pos as int, lit@) {
                    assert(s@.subrange(pos as int, pos + m)[k as int] == lit@[k as int]);
                }
            }
            return None;
        }
        k = k + 1;
    }
    proof {
        assert(s@.subrange(pos as int, pos + m) =~= lit@);
    }
    Some(pos + m)
}


pub open spec fn is_hex(c: char) -> bool {
    ('0' <= c && c <= '9') || ('a' <= c && c <= 'f')
}

pub open spec fn hex_value(c: char) -> int {
    if '0' <= c && c <= '9' { (c as u32) - ('0' as u32) } else { (c as u32) - ('a' as u32) + 10 }
}

/// Decodes the escaped text of a JSON string starting at `i`, up to and
/// including the closing quote: the characters and the position after it.
/// `\\u00XX` escapes are read for control characters only.
pub open spec fn decode_from(s: Seq<char>, i: int) -> Option<(Seq<char>, int)>
    decreases s.len() - i,
{
    if i < 0 || i >= s.len() {
        None
    } else if s[i] == '"' {
        Some((Seq::empty(), i + 1))
    } else if s[i] != '\\' {
        match decode_from(s, i + 1) {
            Some((r, e)) => Some((seq![s[i]] + r, e)),
            None => None,
        }
    } else if i + 1 >= s.len() {
        None
    } else {
        let e = s[i + 1];
        if e == 'u' {
            if i + 5 < s.len() && s[i + 2] == '0' && s[i + 3] == '0' && is_hex(s[i + 4]) && is_hex(s[i + 5])
                && 16 * hex_value(s[i + 4]) + hex_value(s[i + 5]) < 32 {
                let x = 16 * hex_value(s[i + 4]) + hex_value(s[i + 5]);
                match decode_from(s, i + 6) {
                    Some((r, end)) => Some((seq![(x as u32) as char] + r, end)),
                    None => None,
                }
            } else {
                None
            }
        } else {
            let d = if e == '"' { '"' } else if e == '\\' { '\\' } else if e == 'n' { '\n' } else if e == 'r' {
                '\r'
            } else {
                '\t'
            };
            if e == '"' || e == '\\' || e == 'n' || e == 'r' || e == 't' {
                match decode_from(s, i + 2) {
                    Some((r, end)) => Some((seq![d] + r, end)),
                    None => None,
                }
            } else {
                None
            }
        }
    }
}

proof fn lemma_escape_cons(c: char, u: Seq<char>)
    ensures
        json_escape(seq![c] + u) == json_escape_char(c) + json_escape(u),
    decreases u.len(),
{
    if u.len() == 0 {
        assert(seq![c] + u =~= seq![c]);
        assert((seq![c] + u).drop_last() =~= Seq::<char>::empty());
        assert(json_escape(Seq::<char>::empty()) =~= Seq::<char>::empty());
        assert(json_escape_char(c) + json_escape(u) =~= json_escape_char(c));
        assert(json_escape(seq![c]) =~= json_escape(Seq::<char>::empty()) + json_escape_char(c));
    } else {
        lemma_escape_cons(c, u.drop_last());
        assert((seq![c] + u).drop_last() =~= seq![c] + u.drop_last());
        assert(json_escape_char(c) + json_escape(u) =~= json_escape_char(c) + json_escape(u.drop_last())
            + json_escape_char(u.last()));
    }
}

proof fn lemma_hex_char(d: int)
    requires
        0 <= d < 16,
    ensures
        is_hex(hex_char(d)),
        hex_value(hex_char(d)) == d,
{
}

/// Decoding the escaped form of `t` followed by a quote gives `t` back.
pub proof fn lemma_decode_escaped(s: Seq<char>, i: int, t: Seq<char>)
    requires
        0 <= i,
        i + json_escape(t).len() + 1 <= s.len(),
        s.subrange(i, i + json_escape(t).len() + 1) == json_escape(t) + seq!['"'],
    ensures
        decode_from(s, i) == Some((t, i + json_escape(t).len() + 1)),
    decreases t.len(),
{
    if t.len() == 0 {
        assert(json_escape(t) =~= Seq::<char>::empty());
        assert(s[i] == s.subrange(i, i + 1)[0]);
    } else {
        let c = t[0];
        let u = t.drop_first();
        assert(t =~= seq![c] + u);
        lemma_escape_cons(c, u);
        let ec = json_escape_char(c);
        let k = ec.len() as int;
        let whole = json_escape(t) + seq!['"'];
        assert(whole =~= ec + (json_escape(u) + seq!['"']));
        assert(s.subrange(i + k, i + k + json_escape(u).len() + 1) =~= whole.subrange(k, whole.len() as int));
        assert(whole.subrange(k, whole.len() as int) =~= json_escape(u) + seq!['"']);
        lemma_decode_escaped(s, i + k, u);
        assert forall|q: int| 0 <= q < k implies s[i + q] == #[trigger] ec[q] by {
            assert(s[i + q] == s.subrange(i, i + json_escape(t).len() + 1)[q]);
            assert(whole[q] == ec[q]);
        }
        if (c as u32) < 0x20 && c != '\n' && c != '\r' && c != '\t' && c != '"' && c != '\\' {
            let x = (c as u32) as int;
            lemma_hex_char(x / 16);
            lemma_hex_char(x % 16);
            assert(16 * (x / 16) + x % 16 == x) by {
                vstd::arithmetic::div_mod::lemma_fundamental_div_mod(x, 16);
            }
            vstd::utf8::char_u32_cast(c, c as u32);
        }
        assert(seq![c] + u =~= t);
    }
}

fn ctrl_str(x: u32) -> (r: &'static str)
    requires
        x < 32,
    ensures
        r@.len() == 1,
        r@[0] as u32 == x,
{
    proof {
        reveal_strlit("\u{0}");
        reveal_strlit("\u{1}");
        reveal_strlit("\u{2}");
        reveal_strlit("\u{3}");
        reveal_strlit("\u{4}");
        reveal_strlit("\u{5}");
        reveal_strlit("\u{6}");
        reveal_strlit("\u{7}");
        reveal_strlit("\u{8}");
        reveal_strlit("\u{9}");
        reveal_strlit("\u{a}");
        reveal_strlit("\u{b}");
        reveal_strlit("\u{c}");
        reveal_strlit("\u{d}");
        reveal_strlit("\u{e}");
        reveal_strlit("\u{f}");
        reveal_strlit("\u{10}");
        reveal_strlit("\u{11}");
        reveal_strlit("\u{12}");
        reveal_strlit("\u{13}");
        reveal_strlit("\u{14}");
        reveal_strlit("\u{15}");
        reveal_strlit("\u{16}");
        reveal_strlit("\u{17}");
        reveal_strlit("\u{18}");
        reveal_strlit("\u{19}");
        reveal_strlit("\u{1a}");
        reveal_strlit("\u{1b}");
        reveal_strlit("\u{1c}");
        reveal_strlit("\u{1d}");
        reveal_strlit("\u{1e}");
        reveal_strlit("\u{1f}");
    }
    if x == 0 {
        "\u{0}"
    } else if x == 1 {
        "\u{1}"
    } else if x == 2 {
        "\u{2}"
    } else if x == 3 {
        "\u{3}"
    } else if x == 4 {
        "\u{4}"
    } else if x == 5 {
        "\u{5}"
    } else if x == 6 {
        "\u{6}"
    } else if x == 7 {
        "\u{7}"
    } else if x == 8 {
        "\u{8}"
    } else if x == 9 {
        "\u{9}"
    } else if x == 10 {
        "\u{a}"
    } else if x == 11 {
        "\u{b}"
    } else if x == 12 {
        "\u{c}"
    } else if x == 13 {
        "\u{d}"
    } else if x == 14 {
        "\u{e}"
    } else if x == 15 {
        "\u{f}"
    } else if x == 16 {
        "\u{10}"
    } else if x == 17 {
        "\u{11}"
    } else if x == 18 {
        "\u{12}"
    } else if x == 19 {
        "\u{13}"
    } else if x == 20 {
        "\u{14}"
    } else if x == 21 {
        "\u{15}"
    } else if x == 22 {
        "\u{16}"
    } else if x == 23 {
        "\u{17}"
    } else if x == 24 {
        "\u{18}"
    } else if x == 25 {
        "\u{19}"
    } else if x == 26 {
        "\u{1a}"
    } else if x == 27 {
        "\u{1b}"
    } else if x == 28 {
        "\u{1c}"
    } else if x == 29 {
        "\u{1d}"
    } else if x == 30 {
        "\u{1e}"
    } else {
        "\u{1f}"
    }
}

/// Reads the escaped text of a JSON string whose opening quote precedes
/// `pos`, through the closing quote.
fn decode_string(s: &str, pos: usize) -> (r: Option<(String, usize)>)
    ensures
        decode_from(s@, pos as int) matches Some((t, e)) ==> (r matches Some((v, p)) && v@ == t && p == e),
{
    let n = s.unicode_len();
    let mut acc = String::new();
    let mut i: usize = pos;
    proof {
        assert(acc@ + Seq::<char>::empty() =~= acc@);
    }
    while i < n
        invariant
            n == s@.len(),
            pos <= i,
            decode_from(s@, pos as int) matches Some((t, e)) ==> (decode_from(s@, i as int) matches Some((t2, e2))
                && t == acc@ + t2 && e == e2),
        decreases n - i,
    {
        let c = s.get_char(i);
        if c == '"' {
            proof {
                assert(acc@ + Seq::<char>::empty() =~= acc@);
            }
            return Some((acc, i + 1));
        }
        let ghost before = acc@;
        if c != '\\' {
            acc.append(s.substring_char(i, i + 1));
            proof {
                assert(s@.subrange(i as int, i + 1) =~= seq![c]);
                if decode_from(s@, pos as int) is Some {
                    let (t2, e2) = decode_from(s@, i as int)->Some_0;
                    let (t3, e3) = decode_from(s@, i + 1)->Some_0;
                    assert(t2 == seq![c] + t3);
                    assert(before + t2 =~= acc@ + t3);
                }
            }
            i = i + 1;
        } else {
            if i + 1 >= n {
                return None;
            }
            let e = s.get_char(i + 1);
            if e == 'u' {
                if n >= 6 && i < n - 5 && s.get_char(i + 2) == '0' && s.get_char(i + 3) == '0' {
                    let h1 = s.get_char(i + 4);
                    let h2 = s.get_char(i + 5);
                    let ok1 = ('0' <= h1 && h1 <= '9') || ('a' <= h1 && h1 <= 'f');
                    let ok2 = ('0' <= h2 && h2 <= '9') || ('a' <= h2 && h2 <= 'f');
                    if !(ok1 && ok2) {
                        proof {
                            if decode_from(s@, pos as int) is Some {
                                assert(decode_from(s@, i as int) is Some);
                                assert(is_hex(h1) && is_hex(h2));
                            }
                        }
                        return None;
                    }
                    let v1: u32 = if h1 <= '9' { (h1 as u32) - ('0' as u32) } else { (h1 as u32) - ('a' as u32) + 10 };
                    let v2: u32 = if h2 <= '9' { (h2 as u32) - ('0' as u32) } else { (h2 as u32) - ('a' as u32) + 10 };
                    let x: u32 = 16 * v1 + v2;
                    if x >= 32 {
                        proof {
                            if decode_from(s@, pos as int) is Some {
                                assert(x as int == 16 * hex_value(h1) + hex_value(h2));
                            }
                        }
                        return None;
                    }
                    acc.append(ctrl_str(x));
                    proof {
                        let cc = (x as u32) as char;
                        vstd::utf8::char_u32_cast(acc@.last(), x);
                        assert(acc@ =~= before + seq![cc]);
                        if decode_from(s@, pos as int) is Some {
                            assert(x as int == 16 * hex_value(h1) + hex_value(h2));
                            let (t2, e2) = decode_from(s@, i as int)->Some_0;
                            let (t3, e3) = decode_from(s@, i + 6)->Some_0;
                            assert(t2 == seq![cc] + t3);
                            assert(before + t2 =~= acc@ + t3);
                        }
                    }
                    i = i + 6;
                } else {
                    return None;
                }
            } else if e == '"' || e == '\\' || e == 'n' || e == 'r' || e == 't' {
                proof {
                    reveal_strlit("\"");
                    reveal_strlit("\\");
                    reveal_strlit("\n");
                    reveal_strlit("\r");
                    reveal_strlit("\t");
                }
                let d: &str = if e == '"' { "\"" } else if e == '\\' { "\\" } else if e == 'n' { "\n" } else if e == 'r' {
                    "\r"
                } else {
                    "\t"
                };
                acc.append(d);
                proof {
                    if decode_from(s@, pos as int) is Some {
                        let (t2, e2) = decode_from(s@, i as int)->Some_0;
                        let (t3, e3) = decode_from(s@, i + 2)->Some_0;
                        assert(t2 == d@ + t3);
                        assert(before + t2 =~= acc@ + t3);
                    }
                }
                i = i + 2;
            } else {
                return None;
            }
        }
    }
    None
}

/// `s` holds `json_string(t)` at `pos`.
pub open spec fn string_at(s: Seq<char>, pos: int, t: Seq<char>) -> bool {
    at(s, pos, json_string(t))
}

/// Reads a JSON string literal at `pos`.
pub fn parse_json_string(s: &str, pos: usize) -> (r: Option<(String, usize)>)
    ensures
        forall|t: Seq<char>| string_at(s@, pos as int, t) ==> (r matches Some((v, p)) && v@ == t
            && p == pos + json_string(t).len()),
{
    let n = s.unicode_len();
    if pos >= n || s.get_char(pos) != '"' {
        proof {
            assert forall|t: Seq<char>| !string_at(s@, pos as int, t) by {
                if string_at(s@, pos as int, t) {
                    assert(s@[pos as int] == json_string(t)[0]);
                }
            }
        }
        return None;
    }
    proof {
        assert forall|t: Seq<char>| string_at(s@, pos as int, t) implies decode_from(s@, pos + 1) == Some((t, pos + json_string(t).len())) by {
            let js = json_string(t);
            assert(js =~= seq!['"'] + (json_escape(t) + seq!['"']));
            assert(s@.subrange(pos + 1, pos + 1 + json_escape(t).len() + 1) =~= js.subrange(1, js.len() as int));
            assert(js.subrange(1, js.len() as int) =~= json_escape(t) + seq!['"']);
            lemma_decode_escaped(s@, pos + 1, t);
        }
    }
    decode_string(s, pos + 1)
}

/// Concatenation of a sequence of pieces.
pub open spec fn concat_all(ps: Seq<Seq<char>>) -> Seq<char>
    decreases ps.len(),
{
    if ps.len() == 0 { Seq::empty() } else { concat_all(ps.drop_last()) + ps.last() }
}

/// Where piece `k` starts in the concatenation.
pub open spec fn offset(ps: Seq<Seq<char>>, k: int) -> int {
    concat_all(ps.subrange(0, k)).len() as int
}

proof fn lemma_piece_at(ps: Seq<Seq<char>>, k: int)
    requires
        0 <= k < ps.len(),
    ensures
        offset(ps, k + 1) == offset(ps, k) + ps[k].len(),
        offset(ps, k + 1) <= concat_all(ps).len(),
        concat_all(ps).subrange(offset(ps, k), offset(ps, k + 1)) == ps[k],
    decreases ps.len(),
{
    assert(ps.subrange(0, k + 1).drop_last() =~= ps.subrange(0, k));
    if k == ps.len() - 1 {
        assert(ps.subrange(0, k + 1) =~= ps);
        assert(concat_all(ps).subrange(offset(ps, k), offset(ps, k + 1)) =~= ps[k]);
    } else {
        let q = ps.drop_last();
        lemma_piece_at(q, k);
        assert(q.subrange(0, k) =~= ps.subrange(0, k));
        assert(q.subrange(0, k + 1) =~= ps.subrange(0, k + 1));
        assert(concat_all(ps).subrange(offset(ps, k), offset(ps, k + 1))
            =~= concat_all(q).subrange(offset(ps, k), offset(ps, k + 1)));
    }
}

proof fn lemma_concat_append(a: Seq<Seq<char>>, b: Seq<Seq<char>>)
    ensures
        concat_all(a + b) == concat_all(a) + concat_all(b),
    decreases b.len(),
{
    if b.len() == 0 {
        assert(a + b =~= a);
        assert(concat_all(a) + concat_all(b) =~= concat_all(a));
    } else {
        lemma_concat_append(a, b.drop_last());
        assert((a + b).drop_last() =~= a + b.drop_last());
        assert(concat_all(a + b) =~= concat_all(a) + concat_all(b));
    }
}

/// Plain text: nothing in it needs escaping.
pub open spec fn is_plain(t: Seq<char>) -> bool {
    forall|i: int| 0 <= i < t.len() ==> (#[trigger] t[i]) != '"' && t[i] != '\\' && (t[i] as u32) >= 0x20
}

proof fn lemma_plain_escape(t: Seq<char>)
    requires
        is_plain(t),
    ensures
        json_escape(t) == t,
    decreases t.len(),
{
    if t.len() > 0 {
        assert(is_plain(t.drop_last()));
        lemma_plain_escape(t.drop_last());
        assert(t.drop_last().push(t.last()) =~= t);
    }
}

/// Labels of modes, actions, veto reasons and guard states need no escaping.
proof fn lemma_labels_plain(r: DecisionRecord)
    ensures
        json_escape(r.action.label()) == r.action.label(),
        json_escape(r.effective_action.label()) == r.effective_action.label(),
        json_escape(r.policy_mode.label()) == r.policy_mode.label(),
        r.veto_reason matches Some(v) ==> json_escape(v.label()) == v.label(),
        r.guard_status matches Some(g) ==> json_escape(g.label()) == g.label(),
{
    reveal_strlit("keep");
    assert(is_plain("keep"@));
    lemma_plain_escape("keep"@);
    reveal_strlit("delete");
    assert(is_plain("delete"@));
    lemma_plain_escape("delete"@);
    reveal_strlit("review");
    assert(is_plain("review"@));
    lemma_plain_escape("review"@);
    reveal_strlit("live");
    assert(is_plain("live"@));
    lemma_plain_escape("live"@);
    reveal_strlit("shadow");
    assert(is_plain("shadow"@));
    lemma_plain_escape("shadow"@);
    reveal_strlit("canary");
    assert(is_plain("canary"@));
    lemma_plain_escape("canary"@);
    reveal_strlit("dry_run");
    assert(is_plain("dry_run"@));
    lemma_plain_escape("dry_run"@);
    reveal_strlit("open_file");
    assert(is_plain("open_file"@));
    lemma_plain_escape("open_file"@);
    reveal_strlit("excluded");
    assert(is_plain("excluded"@));
    lemma_plain_escape("excluded"@);
    reveal_strlit("protected_root");
    assert(is_plain("protected_root"@));
    lemma_plain_escape("protected_root"@);
    reveal_strlit("unresolved_path");
    assert(is_plain("unresolved_path"@));
    lemma_plain_escape("unresolved_path"@);
    reveal_strlit("system_ancestor");
    assert(is_plain("system_ancestor"@));
    lemma_plain_escape("system_ancestor"@);
    reveal_strlit("too_young");
    assert(is_plain("too_young"@));
    lemma_plain_escape("too_young"@);
    reveal_strlit("marker");
    assert(is_plain("marker"@));
    lemma_plain_escape("marker"@);
    reveal_strlit("config_pattern");
    assert(is_plain("config_pattern"@));
    lemma_plain_escape("config_pattern"@);
    reveal_strlit("unknown");
    assert(is_plain("unknown"@));
    lemma_plain_escape("unknown"@);
    reveal_strlit("pass");
    assert(is_plain("pass"@));
    lemma_plain_escape("pass"@);
    reveal_strlit("fail");
    assert(is_plain("fail"@));
    lemma_plain_escape("fail"@);
}

pub open spec fn head_pieces(r: DecisionRecord) -> Seq<Seq<char>> {
    seq![
        "\"decision_id\":"@,
        decimal(r.decision_id as nat),
        ","@,
        "\"timestamp\":"@,
        decimal(r.timestamp_secs as nat),
        ","@,
        "\"path\":"@,
        json_string(r.path@),
        ","@,
        "\"size_bytes\":"@,
        decimal(r.size_bytes as nat),
        ","@,
        "\"age_secs\":"@,
        decimal(r.age_secs as nat),
        ","@,
        "\"action\":"@,
        json_string(r.action.label()),
        ","@,
        "\"effective_action\":"@,
        json_string(r.effective_action.label()),
        ","@,
        "\"policy_mode\":"@,
        json_string(r.policy_mode.label()),
    ]
}

pub open spec fn factor_pieces(f: ScoreFactors) -> Seq<Seq<char>> {
    seq![
        "{"@,
        "\"location\":"@,
        decimal(f.location as nat),
        ","@,
        "\"name\":"@,
        decimal(f.name as nat),
        ","@,
        "\"age\":"@,
        decimal(f.age as nat),
        ","@,
        "\"size\":"@,
        decimal(f.size as nat),
        ","@,
        "\"structure\":"@,
        decimal(f.structure as nat),
        ","@,
        "\"pressure_multiplier\":"@,
        decimal(f.pressure_multiplier as nat),
        "}"@,
    ]
}

pub open spec fn score_num_pieces(r: DecisionRecord) -> Seq<Seq<char>> {
    seq![
        ","@,
        "\"total_score\":"@,
        decimal(r.total_score as nat),
        ","@,
        "\"posterior_abandoned\":"@,
        decimal(r.posterior_abandoned as nat),
        ","@,
        "\"expected_loss_keep\":"@,
        decimal(r.expected_loss_keep as nat),
        ","@,
        "\"expected_loss_delete\":"@,
        decimal(r.expected_loss_delete as nat),
        ","@,
        "\"calibration_score\":"@,
        decimal(r.calibration_score as nat),
    ]
}

pub open spec fn scores_pieces(r: DecisionRecord) -> Seq<Seq<char>> {
    seq!["\"factors\":"@] + factor_pieces(r.factors) + score_num_pieces(r)
}

pub open spec fn tail_pieces(r: DecisionRecord) -> Seq<Seq<char>> {
    seq![
        "\"vetoed\":"@,
        (if r.vetoed { "true"@ } else { "false"@ }),
        ","@,
        "\"veto_reason\":"@,
        (match r.veto_reason { Some(v) => json_string(v.label()), None => "null"@ }),
        ","@,
        "\"guard_status\":"@,
        (match r.guard_status { Some(v) => json_string(v.label()), None => "null"@ }),
        ","@,
        "\"summary\":"@,
        json_string(r.summary@),
    ]
}

/// The pieces of a record's JSON text, in order.
#[verifier::opaque]
pub open spec fn record_pieces(r: DecisionRecord) -> Seq<Seq<char>> {
    seq!["{"@] + head_pieces(r) + seq![","@] + scores_pieces(r) + seq![","@] + tail_pieces(r) + seq!["}"@]
}

#[verifier::rlimit(100)]
proof fn lemma_head_pieces(r: DecisionRecord)
    ensures
        json_head(r) == concat_all(head_pieces(r)),
{
    reveal_strlit("decision_id");
    reveal_strlit("timestamp");
    reveal_strlit("path");
    reveal_strlit("size_bytes");
    reveal_strlit("age_secs");
    reveal_strlit("action");
    reveal_strlit("effective_action");
    reveal_strlit("policy_mode");
    reveal_strlit("factors");
    reveal_strlit("total_score");
    reveal_strlit("posterior_abandoned");
    reveal_strlit("expected_loss_keep");
    reveal_strlit("expected_loss_delete");
    reveal_strlit("calibration_score");
    reveal_strlit("vetoed");
    reveal_strlit("veto_reason");
    reveal_strlit("guard_status");
    reveal_strlit("summary");
    reveal_strlit("location");
    reveal_strlit("name");
    reveal_strlit("age");
    reveal_strlit("size");
    reveal_strlit("structure");
    reveal_strlit("pressure_multiplier");
    reveal_strlit(",");
    reveal_strlit("\"action\":");
    reveal_strlit("\"age_secs\":");
    reveal_strlit("\"decision_id\":");
    reveal_strlit("\"effective_action\":");
    reveal_strlit("\"path\":");
    reveal_strlit("\"policy_mode\":");
    reveal_strlit("\"size_bytes\":");
    reveal_strlit("\"timestamp\":");
    lemma_labels_plain(r);
    reveal_with_fuel(concat_all, 24);
    assert(json_head(r) =~= concat_all(head_pieces(r)));
}

#[verifier::rlimit(100)]
proof fn lemma_factor_pieces(f: ScoreFactors)
    ensures
        factors_json(f) == concat_all(factor_pieces(f)),
{
    reveal_strlit("decision_id");
    reveal_strlit("timestamp");
    reveal_strlit("path");
    reveal_strlit("size_bytes");
    reveal_strlit("age_secs");
    reveal_strlit("action");
    reveal_strlit("effective_action");
    reveal_strlit("policy_mode");
    reveal_strlit("factors");
    reveal_strlit("total_score");
    reveal_strlit("posterior_abandoned");
    reveal_strlit("expected_loss_keep");
    reveal_strlit("expected_loss_delete");
    reveal_strlit("calibration_score");
    reveal_strlit("vetoed");
    reveal_strlit("veto_reason");
    reveal_strlit("guard_status");
    reveal_strlit("summary");
    reveal_strlit("location");
    reveal_strlit("name");
    reveal_strlit("age");
    reveal_strlit("size");
    reveal_strlit("structure");
    reveal_strlit("pressure_multiplier");
    reveal_strlit(",");
    reveal_strlit("\"age\":");
    reveal_strlit("\"location\":");
    reveal_strlit("\"name\":");
    reveal_strlit("\"pressure_multiplier\":");
    reveal_strlit("\"size\":");
    reveal_strlit("\"structure\":");
    reveal_strlit("{");
    reveal_strlit("}");
    reveal_with_fuel(concat_all, 20);
    assert(factors_json(f) =~= concat_all(factor_pieces(f)));
}

#[verifier::rlimit(100)]
proof fn lemma_score_num_pieces(r: DecisionRecord)
    ensures
        concat_all(score_num_pieces(r)) == seq![','] + num_field("total_score"@, r.total_score as nat) + seq![',']
            + num_field("posterior_abandoned"@, r.posterior_abandoned as nat) + seq![',']
            + num_field("expected_loss_keep"@, r.expected_loss_keep as nat) + seq![',']
            + num_field("expected_loss_delete"@, r.expected_loss_delete as nat) + seq![',']
            + num_field("calibration_score"@, r.calibration_score as nat),
{
    reveal_strlit("decision_id");
    reveal_strlit("timestamp");
    reveal_strlit("path");
    reveal_strlit("size_bytes");
    reveal_strlit("age_secs");
    reveal_strlit("action");
    reveal_strlit("effective_action");
    reveal_strlit("policy_mode");
    reveal_strlit("factors");
    reveal_strlit("total_score");
    reveal_strlit("posterior_abandoned");
    reveal_strlit("expected_loss_keep");
    reveal_strlit("expected_loss_delete");
    reveal_strlit("calibration_score");
    reveal_strlit("vetoed");
    reveal_strlit("veto_reason");
    reveal_strlit("guard_status");
    reveal_strlit("summary");
    reveal_strlit("location");
    reveal_strlit("name");
    reveal_strlit("age");
    reveal_strlit("size");
    reveal_strlit("structure");
    reveal_strlit("pressure_multiplier");
    reveal_strlit(",");
    reveal_strlit("\"calibration_score\":");
    reveal_strlit("\"expected_loss_delete\":");
    reveal_strlit("\"expected_loss_keep\":");
    reveal_strlit("\"posterior_abandoned\":");
    reveal_strlit("\"total_score\":");
    reveal_with_fuel(concat_all, 16);
    assert(concat_all(score_num_pieces(r)) =~= seq![','] + num_field("total_score"@, r.total_score as nat) + seq![',']
            + num_field("posterior_abandoned"@, r.posterior_abandoned as nat) + seq![',']
            + num_field("expected_loss_keep"@, r.expected_loss_keep as nat) + seq![',']
            + num_field("expected_loss_delete"@, r.expected_loss_delete as nat) + seq![',']
            + num_field("calibration_score"@, r.calibration_score as nat));
}

proof fn lemma_scores_pieces(r: DecisionRecord)
    ensures
        json_scores(r) == concat_all(scores_pieces(r)),
{
    reveal_strlit("\"factors\":");
    reveal_strlit("factors");
    lemma_factor_pieces(r.factors);
    lemma_score_num_pieces(r);
    let k = seq!["\"factors\":"@];
    lemma_concat_append(k, factor_pieces(r.factors));
    lemma_concat_append(k + factor_pieces(r.factors), score_num_pieces(r));
    reveal_with_fuel(concat_all, 2);
    assert(concat_all(k) =~= "\"factors\":"@);
    assert(json_scores(r) =~= concat_all(scores_pieces(r)));
}

#[verifier::rlimit(100)]
proof fn lemma_tail_pieces(r: DecisionRecord)
    ensures
        json_tail(r) == concat_all(tail_pieces(r)),
{
    reveal_strlit("decision_id");
    reveal_strlit("timestamp");
    reveal_strlit("path");
    reveal_strlit("size_bytes");
    reveal_strlit("age_secs");
    reveal_strlit("action");
    reveal_strlit("effective_action");
    reveal_strlit("policy_mode");
    reveal_strlit("factors");
    reveal_strlit("total_score");
    reveal_strlit("posterior_abandoned");
    reveal_strlit("expected_loss_keep");
    reveal_strlit("expected_loss_delete");
    reveal_strlit("calibration_score");
    reveal_strlit("vetoed");
    reveal_strlit("veto_reason");
    reveal_strlit("guard_status");
    reveal_strlit("summary");
    reveal_strlit("location");
    reveal_strlit("name");
    reveal_strlit("age");
    reveal_strlit("size");
    reveal_strlit("structure");
    reveal_strlit("pressure_multiplier");
    reveal_strlit(",");
    reveal_strlit("\"guard_status\":");
    reveal_strlit("\"summary\":");
    reveal_strlit("\"veto_reason\":");
    reveal_strlit("\"vetoed\":");
    reveal_strlit("null");
    reveal_strlit("true");
    reveal_strlit("false");
    lemma_labels_plain(r);
    reveal_with_fuel(concat_all, 12);
    assert(json_tail(r) =~= concat_all(tail_pieces(r)));
}

/// The JSON text of a record is its pieces, one after another.
proof fn lemma_record_pieces(r: DecisionRecord)
    ensures
        record_json(r) == concat_all(record_pieces(r)),
{
    reveal_strlit("{");
    reveal_strlit("}");
    reveal_strlit(",");
    lemma_head_pieces(r);
    lemma_scores_pieces(r);
    lemma_tail_pieces(r);
    let h = seq!["{"@] + head_pieces(r);
    let hs = h + seq![","@] + scores_pieces(r);
    let hst = hs + seq![","@] + tail_pieces(r);
    lemma_concat_append(seq!["{"@], head_pieces(r));
    lemma_concat_append(h, seq![","@]);
    lemma_concat_append(h + seq![","@], scores_pieces(r));
    lemma_concat_append(hs, seq![","@]);
    lemma_concat_append(hs + seq![","@], tail_pieces(r));
    lemma_concat_append(hst, seq!["}"@]);
    reveal(record_json);
    reveal(record_pieces);
    reveal_with_fuel(concat_all, 2);
    assert(record_json(r) =~= concat_all(record_pieces(r)));
}

pub open spec fn parse_veto_label_spec(t: Seq<char>) -> Option<VetoReason> {
    if t == "open_file"@ {
        Some(VetoReason::OpenFile)
    } else if t == "excluded"@ {
        Some(VetoReason::Excluded)
    } else if t == "protected_root"@ {
        Some(VetoReason::ProtectedRoot)
    } else if t == "unresolved_path"@ {
        Some(VetoReason::UnresolvedPath)
    } else if t == "system_ancestor"@ {
        Some(VetoReason::SystemAncestor)
    } else if t == "too_young"@ {
        Some(VetoReason::TooYoung)
    } else if t == "marker"@ {
        Some(VetoReason::Marker)
    } else if t == "config_pattern"@ {
        Some(VetoReason::ConfigPattern)
    } else {
        None
    }
}

fn parse_veto_label(t: &str) -> (r: Option<VetoReason>)
    ensures
        r == parse_veto_label_spec(t@),
{
    if crate::text::str_eq(t, "open_file") {
        Some(VetoReason::OpenFile)
    } else if crate::text::str_eq(t, "excluded") {
        Some(VetoReason::Excluded)
    } else if crate::text::str_eq(t, "protected_root") {
        Some(VetoReason::ProtectedRoot)
    } else if crate::text::str_eq(t, "unresolved_path") {
        Some(VetoReason::UnresolvedPath)
    } else if crate::text::str_eq(t, "system_ancestor") {
        Some(VetoReason::SystemAncestor)
    } else if crate::text::str_eq(t, "too_young") {
        Some(VetoReason::TooYoung)
    } else if crate::text::str_eq(t, "marker") {
        Some(VetoReason::Marker)
    } else if crate::text::str_eq(t, "config_pattern") {
        Some(VetoReason::ConfigPattern)
    } else {
        None
    }
}

proof fn lemma_veto_label(v: VetoReason)
    ensures
        parse_veto_label_spec(v.label()) == Some(v),
{
    reveal_strlit("open_file");
    reveal_strlit("excluded");
    reveal_strlit("protected_root");
    reveal_strlit("unresolved_path");
    reveal_strlit("system_ancestor");
    reveal_strlit("too_young");
    reveal_strlit("marker");
    reveal_strlit("config_pattern");
    assert("open_file"@.len() == 9);
    assert("excluded"@.len() == 8);
    assert("protected_root"@.len() == 14);
    assert("unresolved_path"@.len() == 15);
    assert("unresolved_path"@[0] != "system_ancestor"@[0]);
    assert("system_ancestor"@.len() == 15);
    assert("too_young"@.len() == 9);
    assert("marker"@.len() == 6);
    assert("config_pattern"@.len() == 14);
    assert("open_file"@[0] != "too_young"@[0]);
    assert("protected_root"@[0] != "config_pattern"@[0]);
}

pub open spec fn parse_guard_label_spec(t: Seq<char>) -> Option<GuardStatus> {
    if t == "unknown"@ {
        Some(GuardStatus::Unknown)
    } else if t == "pass"@ {
        Some(GuardStatus::Pass)
    } else if t == "fail"@ {
        Some(GuardStatus::Fail)
    } else {
        None
    }
}

fn parse_guard_label(t: &str) -> (r: Option<GuardStatus>)
    ensures
        r == parse_guard_label_spec(t@),
{
    if crate::text::str_eq(t, "unknown") {
        Some(GuardStatus::Unknown)
    } else if crate::text::str_eq(t, "pass") {
        Some(GuardStatus::Pass)
    } else if crate::text::str_eq(t, "fail") {
        Some(GuardStatus::Fail)
    } else {
        None
    }
}

proof fn lemma_guard_label(v: GuardStatus)
    ensures
        parse_guard_label_spec(v.label()) == Some(v),
{
    reveal_strlit("unknown");
    reveal_strlit("pass");
    reveal_strlit("fail");
    assert("unknown"@.len() == 7);
    assert("pass"@.len() == 4);
    assert("fail"@.len() == 4);
    assert("pass"@[0] != "fail"@[0]);
}

/// The pieces of a record, one by one.
#[verifier::rlimit(100)]
proof fn lemma_pieces_index(r: DecisionRecord)
    ensures
        ({
            let ps = record_pieces(r);
            &&& ps.len() == 73
            &&& ps[0] == "{"@
            &&& ps[1] == "\"decision_id\":"@
            &&& ps[2] == decimal(r.decision_id as nat)
            &&& ps[3] == ","@
            &&& ps[4] == "\"timestamp\":"@
            &&& ps[5] == decimal(r.timestamp_secs as nat)
            &&& ps[6] == ","@
            &&& ps[7] == "\"path\":"@
            &&& ps[8] == json_string(r.path@)
            &&& ps[9] == ","@
            &&& ps[10] == "\"size_bytes\":"@
            &&& ps[11] == decimal(r.size_bytes as nat)
            &&& ps[12] == ","@
            &&& ps[13] == "\"age_secs\":"@
            &&& ps[14] == decimal(r.age_secs as nat)
            &&& ps[15] == ","@
            &&& ps[16] == "\"action\":"@
            &&& ps[17] == json_string(r.action.label())
            &&& ps[18] == ","@
            &&& ps[19] == "\"effective_action\":"@
            &&& ps[20] == json_string(r.effective_action.label())
            &&& ps[21] == ","@
            &&& ps[22] == "\"policy_mode\":"@
            &&& ps[23] == json_string(r.policy_mode.label())
            &&& ps[24] == ","@
            &&& ps[25] == "\"factors\":"@
            &&& ps[26] == "{"@
            &&& ps[27] == "\"location\":"@
            &&& ps[28] == decimal(r.factors.location as nat)
            &&& ps[29] == ","@
            &&& ps[30] == "\"name\":"@
            &&& ps[31] == decimal(r.factors.name as nat)
            &&& ps[32] == ","@
            &&& ps[33] == "\"age\":"@
            &&& ps[34] == decimal(r.factors.age as nat)
            &&& ps[35] == ","@
            &&& ps[36] == "\"size\":"@
            &&& ps[37] == decimal(r.factors.size as nat)
            &&& ps[38] == ","@
            &&& ps[39] == "\"structure\":"@
            &&& ps[40] == decimal(r.factors.structure as nat)
            &&& ps[41] == ","@
            &&& ps[42] == "\"pressure_multiplier\":"@
            &&& ps[43] == decimal(r.factors.pressure_multiplier as nat)
            &&& ps[44] == "}"@
            &&& ps[45] == ","@
            &&& ps[46] == "\"total_score\":"@
            &&& ps[47] == decimal(r.total_score as nat)
            &&& ps[48] == ","@
            &&& ps[49] == "\"posterior_abandoned\":"@
            &&& ps[50] == decimal(r.posterior_abandoned as nat)
            &&& ps[51] == ","@
            &&& ps[52] == "\"expected_loss_keep\":"@
            &&& ps[53] == decimal(r.expected_loss_keep as nat)
            &&& ps[54] == ","@
            &&& ps[55] == "\"expected_loss_delete\":"@
            &&& ps[56] == decimal(r.expected_loss_delete as nat)
            &&& ps[57] == ","@
            &&& ps[58] == "\"calibration_score\":"@
            &&& ps[59] == decimal(r.calibration_score as nat)
            &&& ps[60] == ","@
            &&& ps[61] == "\"vetoed\":"@
            &&& ps[62] == (if r.vetoed { "true"@ } else { "false"@ })
            &&& ps[63] == ","@
            &&& ps[64] == "\"veto_reason\":"@
            &&& ps[65] == (match r.veto_reason { Some(v) => json_string(v.label()), None => "null"@ })
            &&& ps[66] == ","@
            &&& ps[67] == "\"guard_status\":"@
            &&& ps[68] == (match r.guard_status { Some(v) => json_string(v.label()), None => "null"@ })
            &&& ps[69] == ","@
            &&& ps[70] == "\"summary\":"@
            &&& ps[71] == json_string(r.summary@)
            &&& ps[72] == "}"@
        }),
{
    reveal(record_pieces);
    assert(record_pieces(r) =~= seq![
        "{"@,
        "\"decision_id\":"@,
        decimal(r.decision_id as nat),
        ","@,
        "\"timestamp\":"@,
        decimal(r.timestamp_secs as nat),
        ","@,
        "\"path\":"@,
        json_string(r.path@),
        ","@,
        "\"size_bytes\":"@,
        decimal(r.size_bytes as nat),
        ","@,
        "\"age_secs\":"@,
        decimal(r.age_secs as nat),
        ","@,
        "\"action\":"@,
        json_string(r.action.label()),
        ","@,
        "\"effective_action\":"@,
        json_string(r.effective_action.label()),
        ","@,
        "\"policy_mode\":"@,
        json_string(r.policy_mode.label()),
        ","@,
        "\"factors\":"@,
        "{"@,
        "\"location\":"@,
        decimal(r.factors.location as nat),
        ","@,
        "\"name\":"@,
        decimal(r.factors.name as nat),
        ","@,
        "\"age\":"@,
        decimal(r.factors.age as nat),
        ","@,
        "\"size\":"@,
        decimal(r.factors.size as nat),
        ","@,
        "\"structure\":"@,
        decimal(r.factors.structure as nat),
        ","@,
        "\"pressure_multiplier\":"@,
        decimal(r.factors.pressure_multiplier as nat),
        "}"@,
        ","@,
        "\"total_score\":"@,
        decimal(r.total_score as nat),
        ","@,
        "\"posterior_abandoned\":"@,
        decimal(r.posterior_abandoned as nat),
        ","@,
        "\"expected_loss_keep\":"@,
        decimal(r.expected_loss_keep as nat),
        ","@,
        "\"expected_loss_delete\":"@,
        decimal(r.expected_loss_delete as nat),
        ","@,
        "\"calibration_score\":"@,
        decimal(r.calibration_score as nat),
        ","@,
        "\"vetoed\":"@,
        (if r.vetoed { "true"@ } else { "false"@ }),
        ","@,
        "\"veto_reason\":"@,
        (match r.veto_reason { Some(v) => json_string(v.label()), None => "null"@ }),
        ","@,
        "\"guard_status\":"@,
        (match r.guard_status { Some(v) => json_string(v.label()), None => "null"@ }),
        ","@,
        "\"summary\":"@,
        json_string(r.summary@),
        "}"@,
    ]);
}

/// In the JSON text of `r`, piece `k` stands at its offset.
proof fn lemma_at_piece(s: Seq<char>, r: DecisionRecord, k: int)
    requires
        s == record_json(r),
        0 <= k < 73,
    ensures
        at(s, offset(record_pieces(r), k), record_pieces(r)[k]),
        offset(record_pieces(r), k + 1) == offset(record_pieces(r), k) + record_pieces(r)[k].len(),
        offset(record_pieces(r), 0) == 0,
        record_pieces(r).len() == 73,
{
    lemma_record_pieces(r);
    lemma_pieces_index(r);
    lemma_piece_at(record_pieces(r), k);
    assert(record_pieces(r).subrange(0, 0) =~= Seq::<Seq<char>>::empty());
}

/// The decoder is at piece `k` of every record whose text `s` is.
pub open spec fn at_piece_of(s: Seq<char>, p: int, k: int) -> bool {
    forall|r: DecisionRecord| #[trigger] record_json(r) == s ==> p == offset(record_pieces(r), k)
}

/// No record has `s` as its text.
pub open spec fn no_record(s: Seq<char>) -> bool {
    forall|r: DecisionRecord| #[trigger] record_json(r) == s ==> false
}

proof fn lemma_piece_0(r: DecisionRecord)
    ensures
        record_pieces(r)[0] == "{"@,
{
    lemma_pieces_index(r);
}

proof fn lemma_piece_1(r: DecisionRecord)
    ensures
        record_pieces(r)[1] == "\"decision_id\":"@,
{
    lemma_pieces_index(r);
}

proof fn lemma_piece_2(r: DecisionRecord)
    ensures
        record_pieces(r)[2] == decimal(r.decision_id as nat),
{
    lemma_pieces_index(r);
}

proof fn lemma_piece_3(r: DecisionRecord)
    ensures
        record_pieces(r)[3] == ","@,
{
    lemma_pieces_index(r);
}

proof fn lemma_piece_4(r: DecisionRecord)
    ensures
        record_pieces(r)[4] == "\"timestamp\":"@,
{
    lemma_pieces_index(r);
}

proof fn lemma_piece_5(r: DecisionRecord)
    ensures
        record_pieces(r)[5] == decimal(r.timestamp_secs as nat),
{
    lemma_pieces_index(r);
}

proof fn lemma_piece_6(r: DecisionRecord)
    ensures
        record_pieces(r)[6] == ","@,
{
    lemma_pieces_index(r);
}

proof fn lemma_piece_7(r: DecisionRecord)
    ensures
        record_pieces(r)[7] == "\"path\":"@,
{
    lemma_pieces_index(r);
}

proof fn lemma_piece_8(r: DecisionRecord)
    ensures
        record_pieces(r)[8] == json_string(r.path@),
{
    lemma_pieces_index(r);
}

proof fn lemma_piece_9(r: DecisionRecord)
    ensures
        record_pieces(r)[9] == ","@,
{
    lemma_pieces_index(r);
}

proof fn lemma_piece_10(r: DecisionRecord)
    ensures
        record_pieces(r)[10] == "\"size_bytes\":"@,
{
    lemma_pieces_index(r);
}

proof fn lemma_piece_11(r: DecisionRecord)
    ensures
        record_pieces(r)[11] == decimal(r.size_bytes as nat),
{
    lemma_pieces_index(r);
}

proof fn lemma_piece_12(r: DecisionRecord)
    ensures
        record_pieces(r)[12] == ","@,
{
    lemma_pieces_index(r);
}

proof fn lemma_piece_13(r: DecisionRecord)
    ensures
        record_pieces(r)[13] == "\"age_secs\":"@,
{
    lemma_pieces_index(r);
}

proof fn lemma_piece_14(r: DecisionRecord)
    ensures
        record_pieces(r)[14] == decimal(r.age_secs as nat),
{
    lemma_pieces_index(r);
}

proof fn lemma_piece_15(r: DecisionRecord)
    ensures
        record_pieces(r)[15] == ","@,
{
    lemma_pieces_index(r);
}

proof fn lemma_piece_16(r: DecisionRecord)
    ensures
        record_pieces(r)[16] == "\"action\":"@,
{
    lemma_pieces_index(r);
}

proof fn lemma_piece_17(r: DecisionRecord)
    ensures
        record_pieces(r)[17] == json_string(r.action.label()),
{
    lemma_pieces_index(r);
}

proof fn lemma_piece_18(r: DecisionRecord)
    ensures
        record_pieces(r)[18] == ","@,
{
    lemma_pieces_index(r);
}

proof fn lemma_piece_19(r: DecisionRecord)
    ensures
        record_pieces(r)[19] == "\"effective_action\":"@,
{
    lemma_pieces_index(r);
}

proof fn lemma_piece_20(r: DecisionRecord)
    ensures
        record_pieces(r)[20] == json_string(r.effective_action.label()),
{
    lemma_pieces_index(r);
}

proof fn lemma_piece_21(r: DecisionRecord)
    ensures
        record_pieces(r)[21] == ","@,
{
    lemma_pieces_index(r);
}

proof fn lemma_piece_22(r: DecisionRecord)
    ensures
        record_pieces(r)[22] == "\"policy_mode\":"@,
{
    lemma_pieces_index(r);
}

proof fn lemma_piece_23(r: DecisionRecord)
    ensures
        record_pieces(r)[23] == json_string(r.policy_mode.label()),
{
    lemma_pieces_index(r);
}

proof fn lemma_piece_24(r: DecisionRecord)
    ensures
        record_pieces(r)[24] == ","@,
{
    lemma_pieces_index(r);
}

proof fn lemma_piece_25(r: DecisionRecord)
    ensures
        record_pieces(r)[25] == "\"factors\":"@,
{
    lemma_pieces_index(r);
}

proof fn lemma_piece_26(r: DecisionRecord)
    ensures
        record_pieces(r)[26] == "{"@,
{
    lemma_pieces_index(r);
}

proof fn lemma_piece_27(r: DecisionRecord)
    ensures
        record_pieces(r)[27] == "\"location\":"@,
{
    lemma_pieces_index(r);
}

proof fn lemma_piece_28(r: DecisionRecord)
    ensures
        record_pieces(r)[28] == decimal(r.factors.location as nat),
{
    lemma_pieces_index(r);
}

proof fn lemma_piece_29(r: DecisionRecord)
    ensures
        record_pieces(r)[29] == ","@,
{
    lemma_pieces_index(r);
}

proof fn lemma_piece_30(r: DecisionRecord)
    ensures
        record_pieces(r)[30] == "\"name\":"@,
{
    lemma_pieces_index(r);
}

proof fn lemma_piece_31(r: DecisionRecord)
    ensures
        record_pieces(r)[31] == decimal(r.factors.name as nat),
{
    lemma_pieces_index(r);
}

proof fn lemma_piece_32(r: DecisionRecord)
    ensures
        record_pieces(r)[32] == ","@,
{
    lemma_pieces_index(r);
}

proof fn lemma_piece_33(r: DecisionRecord)
    ensures
        record_pieces(r)[33] == "\"age\":"@,
{
    lemma_pieces_index(r);
}

proof fn lemma_piece_34(r: DecisionRecord)
    ensures
        record_pieces(r)[34] == decimal(r.factors.age as nat),
{
    lemma_pieces_index(r);
}

proof fn lemma_piece_35(r: DecisionRecord)
    ensures
        record_pieces(r)[35] == ","@,
{
    lemma_pieces_index(r);
}

proof fn lemma_piece_36(r: DecisionRecord)
    ensures
        record_pieces(r)[36] == "\"size\":"@,
{
    lemma_pieces_index(r);
}

proof fn lemma_piece_37(r: DecisionRecord)
    ensures
        record_pieces(r)[37] == decimal(r.factors.size as nat),
{
    lemma_pieces_index(r);
}

proof fn lemma_piece_38(r: DecisionRecord)
    ensures
        record_pieces(r)[38] == ","@,
{
    lemma_pieces_index(r);
}

proof fn lemma_piece_39(r: DecisionRecord)
    ensures
        record_pieces(r)[39] == "\"structure\":"@,
{
    lemma_pieces_index(r);
}

proof fn lemma_piece_40(r: DecisionRecord)
    ensures
        record_pieces(r)[40] == decimal(r.factors.structure as nat),
{
    lemma_pieces_index(r);
}

proof fn lemma_piece_41(r: DecisionRecord)
    ensures
        record_pieces(r)[41] == ","@,
{
    lemma_pieces_index(r);
}

proof fn lemma_piece_42(r: DecisionRecord)
    ensures
        record_pieces(r)[42] == "\"pressure_multiplier\":"@,
{
    lemma_pieces_index(r);
}

proof fn lemma_piece_43(r: DecisionRecord)
    ensures
        record_pieces(r)[43] == decimal(r.factors.pressure_multiplier as nat),
{
    lemma_pieces_index(r);
}

proof fn lemma_piece_44(r: DecisionRecord)
    ensures
        record_pieces(r)[44] == "}"@,
{
    lemma_pieces_index(r);
}

proof fn lemma_piece_45(r: DecisionRecord)
    ensures
        record_pieces(r)[45] == ","@,
{
    lemma_pieces_index(r);
}

proof fn lemma_piece_46(r: DecisionRecord)
    ensures
        record_pieces(r)[46] == "\"total_score\":"@,
{
    lemma_pieces_index(r);
}

proof fn lemma_piece_47(r: DecisionRecord)
    ensures
        record_pieces(r)[47] == decimal(r.total_score as nat),
{
    lemma_pieces_index(r);
}

proof fn lemma_piece_48(r: DecisionRecord)
    ensures
        record_pieces(r)[48] == ","@,
{
    lemma_pieces_index(r);
}

proof fn lemma_piece_49(r: DecisionRecord)
    ensures
        record_pieces(r)[49] == "\"posterior_abandoned\":"@,
{
    lemma_pieces_index(r);
}

proof fn lemma_piece_50(r: DecisionRecord)
    ensures
        record_pieces(r)[50] == decimal(r.posterior_abandoned as nat),
{
    lemma_pieces_index(r);
}

proof fn lemma_piece_51(r: DecisionRecord)
    ensures
        record_pieces(r)[51] == ","@,
{
    lemma_pieces_index(r);
}

proof fn lemma_piece_52(r: DecisionRecord)
    ensures
        record_pieces(r)[52] == "\"expected_loss_keep\":"@,
{
    lemma_pieces_index(r);
}

proof fn lemma_piece_53(r: DecisionRecord)
    ensures
        record_pieces(r)[53] == decimal(r.expected_loss_keep as nat),
{
    lemma_pieces_index(r);
}

proof fn lemma_piece_54(r: DecisionRecord)
    ensures
        record_pieces(r)[54] == ","@,
{
    lemma_pieces_index(r);
}

proof fn lemma_piece_55(r: DecisionRecord)
    ensures
        record_pieces(r)[55] == "\"expected_loss_delete\":"@,
{
    lemma_pieces_index(r);
}

proof fn lemma_piece_56(r: DecisionRecord)
    ensures
        record_pieces(r)[56] == decimal(r.expected_loss_delete as nat),
{
    lemma_pieces_index(r);
}

proof fn lemma_piece_57(r: DecisionRecord)
    ensures
        record_pieces(r)[57] == ","@,
{
    lemma_pieces_index(r);
}

proof fn lemma_piece_58(r: DecisionRecord)
    ensures
        record_pieces(r)[58] == "\"calibration_score\":"@,
{
    lemma_pieces_index(r);
}

proof fn lemma_piece_59(r: DecisionRecord)
    ensures
        record_pieces(r)[59] == decimal(r.calibration_score as nat),
{
    lemma_pieces_index(r);
}

proof fn lemma_piece_60(r: DecisionRecord)
    ensures
        record_pieces(r)[60] == ","@,
{
    lemma_pieces_index(r);
}

proof fn lemma_piece_61(r: DecisionRecord)
    ensures
        record_pieces(r)[61] == "\"vetoed\":"@,
{
    lemma_pieces_index(r);
}

proof fn lemma_piece_62(r: DecisionRecord)
    ensures
        record_pieces(r)[62] == (if r.vetoed { "true"@ } else { "false"@ }),
{
    lemma_pieces_index(r);
}

proof fn lemma_piece_63(r: DecisionRecord)
    ensures
        record_pieces(r)[63] == ","@,
{
    lemma_pieces_index(r);
}

proof fn lemma_piece_64(r: DecisionRecord)
    ensures
        record_pieces(r)[64] == "\"veto_reason\":"@,
{
    lemma_pieces_index(r);
}

proof fn lemma_piece_65(r: DecisionRecord)
    ensures
        record_pieces(r)[65] == (match r.veto_reason { Some(v) => json_string(v.label()), None => "null"@ }),
{
    lemma_pieces_index(r);
}

proof fn lemma_piece_66(r: DecisionRecord)
    ensures
        record_pieces(r)[66] == ","@,
{
    lemma_pieces_index(r);
}

proof fn lemma_piece_67(r: DecisionRecord)
    ensures
        record_pieces(r)[67] == "\"guard_status\":"@,
{
    lemma_pieces_index(r);
}

proof fn lemma_piece_68(r: DecisionRecord)
    ensures
        record_pieces(r)[68] == (match r.guard_status { Some(v) => json_string(v.label()), None => "null"@ }),
{
    lemma_pieces_index(r);
}

proof fn lemma_piece_69(r: DecisionRecord)
    ensures
        record_pieces(r)[69] == ","@,
{
    lemma_pieces_index(r);
}

proof fn lemma_piece_70(r: DecisionRecord)
    ensures
        record_pieces(r)[70] == "\"summary\":"@,
{
    lemma_pieces_index(r);
}

proof fn lemma_piece_71(r: DecisionRecord)
    ensures
        record_pieces(r)[71] == json_string(r.summary@),
{
    lemma_pieces_index(r);
}

proof fn lemma_piece_72(r: DecisionRecord)
    ensures
        record_pieces(r)[72] == "}"@,
{
    lemma_pieces_index(r);
}

fn step_0(s: &str, p: usize) -> (q: Option<usize>)
    requires
        at_piece_of(s@, p as int, 0),
    ensures
        q matches Some(q) ==> at_piece_of(s@, q as int, 1),
        q is None ==> no_record(s@),
{
    let len = s.unicode_len();
    let q = expect_at(s, p, "{");
    proof {
        assert forall|r: DecisionRecord| #[trigger] record_json(r) == s@ implies q == Some((p + "{"@.len()) as usize)
            && p + "{"@.len() == offset(record_pieces(r), 1) by {
            lemma_at_piece(s@, r, 0);
            lemma_piece_0(r);
        }
    }
    q
}

fn step_1(s: &str, p: usize) -> (q: Option<usize>)
    requires
        at_piece_of(s@, p as int, 1),
    ensures
        q matches Some(q) ==> at_piece_of(s@, q as int, 2),
        q is None ==> no_record(s@),
{
    let len = s.unicode_len();
    let q = expect_at(s, p, "\"decision_id\":");
    proof {
        assert forall|r: DecisionRecord| #[trigger] record_json(r) == s@ implies q == Some((p + "\"decision_id\":"@.len()) as usize)
            && p + "\"decision_id\":"@.len() == offset(record_pieces(r), 2) by {
            lemma_at_piece(s@, r, 1);
            lemma_piece_1(r);
        }
    }
    q
}

fn step_2(s: &str, p: usize) -> (res: Option<(u64, usize)>)
    requires
        at_piece_of(s@, p as int, 2),
    ensures
        res matches Some((v, q)) ==> at_piece_of(s@, q as int, 3)
            && forall|r: DecisionRecord| #[trigger] record_json(r) == s@ ==> v == r.decision_id,
        res is None ==> no_record(s@),
{
    let len = s.unicode_len();
    let res = parse_u64(s, p);
    proof {
        assert forall|r: DecisionRecord| #[trigger] record_json(r) == s@ implies res == Some(((r.decision_id) as u64, (p + decimal(r.decision_id as nat).len()) as usize))
            && p + decimal(r.decision_id as nat).len() == offset(record_pieces(r), 3) && p + decimal(r.decision_id as nat).len() <= s@.len() by {
            lemma_at_piece(s@, r, 2);
            lemma_piece_2(r);
            lemma_at_piece(s@, r, 3);
            lemma_piece_3(r);
            reveal_strlit(",");
            assert(s@[offset(record_pieces(r), 3)] == record_pieces(r)[3][0]);
            assert(number_at(s@, p as int, ((r.decision_id) as u64) as nat));
        }
    }
    match res {
        Some((v, q)) => Some((v, q)),
        None => None,
    }
}

fn step_3(s: &str, p: usize) -> (q: Option<usize>)
    requires
        at_piece_of(s@, p as int, 3),
    ensures
        q matches Some(q) ==> at_piece_of(s@, q as int, 4),
        q is None ==> no_record(s@),
{
    let len = s.unicode_len();
    let q = expect_at(s, p, ",");
    proof {
        assert forall|r: DecisionRecord| #[trigger] record_json(r) == s@ implies q == Some((p + ","@.len()) as usize)
            && p + ","@.len() == offset(record_pieces(r), 4) by {
            lemma_at_piece(s@, r, 3);
            lemma_piece_3(r);
        }
    }
    q
}

fn step_4(s: &str, p: usize) -> (q: Option<usize>)
    requires
        at_piece_of(s@, p as int, 4),
    ensures
        q matches Some(q) ==> at_piece_of(s@, q as int, 5),
        q is None ==> no_record(s@),
{
    let len = s.unicode_len();
    let q = expect_at(s, p, "\"timestamp\":");
    proof {
        assert forall|r: DecisionRecord| #[trigger] record_json(r) == s@ implies q == Some((p + "\"timestamp\":"@.len()) as usize)
            && p + "\"timestamp\":"@.len() == offset(record_pieces(r), 5) by {
            lemma_at_piece(s@, r, 4);
            lemma_piece_4(r);
        }
    }
    q
}

fn step_5(s: &str, p: usize) -> (res: Option<(u64, usize)>)
    requires
        at_piece_of(s@, p as int, 5),
    ensures
        res matches Some((v, q)) ==> at_piece_of(s@, q as int, 6)
            && forall|r: DecisionRecord| #[trigger] record_json(r) == s@ ==> v == r.timestamp_secs,
        res is None ==> no_record(s@),
{
    let len = s.unicode_len();
    let res = parse_u64(s, p);
    proof {
        assert forall|r: DecisionRecord| #[trigger] record_json(r) == s@ implies res == Some(((r.timestamp_secs) as u64, (p + decimal(r.timestamp_secs as nat).len()) as usize))
            && p + decimal(r.timestamp_secs as nat).len() == offset(record_pieces(r), 6) && p + decimal(r.timestamp_secs as nat).len() <= s@.len() by {
            lemma_at_piece(s@, r, 5);
            lemma_piece_5(r);
            lemma_at_piece(s@, r, 6);
            lemma_piece_6(r);
            reveal_strlit(",");
            assert(s@[offset(record_pieces(r), 6)] == record_pieces(r)[6][0]);
            assert(number_at(s@, p as int, ((r.timestamp_secs) as u64) as nat));
        }
    }
    match res {
        Some((v, q)) => Some((v, q)),
        None => None,
    }
}

fn step_6(s: &str, p: usize) -> (q: Option<usize>)
    requires
        at_piece_of(s@, p as int, 6),
    ensures
        q matches Some(q) ==> at_piece_of(s@, q as int, 7),
        q is None ==> no_record(s@),
{
    let len = s.unicode_len();
    let q = expect_at(s, p, ",");
    proof {
        assert forall|r: DecisionRecord| #[trigger] record_json(r) == s@ implies q == Some((p + ","@.len()) as usize)
            && p + ","@.len() == offset(record_pieces(r), 7) by {
            lemma_at_piece(s@, r, 6);
            lemma_piece_6(r);
        }
    }
    q
}

fn step_7(s: &str, p: usize) -> (q: Option<usize>)
    requires
        at_piece_of(s@, p as int, 7),
    ensures
        q matches Some(q) ==> at_piece_of(s@, q as int, 8),
        q is None ==> no_record(s@),
{
    let len = s.unicode_len();
    let q = expect_at(s, p, "\"path\":");
    proof {
        assert forall|r: DecisionRecord| #[trigger] record_json(r) == s@ implies q == Some((p + "\"path\":"@.len()) as usize)
            && p + "\"path\":"@.len() == offset(record_pieces(r), 8) by {
            lemma_at_piece(s@, r, 7);
            lemma_piece_7(r);
        }
    }
    q
}

fn step_8(s: &str, p: usize) -> (res: Option<(String, usize)>)
    requires
        at_piece_of(s@, p as int, 8),
    ensures
        res matches Some((v, q)) ==> at_piece_of(s@, q as int, 9)
            && forall|r: DecisionRecord| #[trigger] record_json(r) == s@ ==> v@ == r.path@,
        res is None ==> no_record(s@),
{
    let len = s.unicode_len();
    let res = parse_json_string(s, p);
    proof {
        assert forall|r: DecisionRecord| #[trigger] record_json(r) == s@ implies (res matches Some((v, q)) && v@ == r.path@
            && q == p + json_string(r.path@).len() && q == offset(record_pieces(r), 9)) by {
            lemma_at_piece(s@, r, 8);
            lemma_piece_8(r);
            assert(string_at(s@, p as int, r.path@));
        }
    }
    res
}

fn step_9(s: &str, p: usize) -> (q: Option<usize>)
    requires
        at_piece_of(s@, p as int, 9),
    ensures
        q matches Some(q) ==> at_piece_of(s@, q as int, 10),
        q is None ==> no_record(s@),
{
    let len = s.unicode_len();
    let q = expect_at(s, p, ",");
    proof {
        assert forall|r: DecisionRecord| #[trigger] record_json(r) == s@ implies q == Some((p + ","@.len()) as usize)
            && p + ","@.len() == offset(record_pieces(r), 10) by {
            lemma_at_piece(s@, r, 9);
            lemma_piece_9(r);
        }
    }
    q
}

fn step_10(s: &str, p: usize) -> (q: Option<usize>)
    requires
        at_piece_of(s@, p as int, 10),
    ensures
        q matches Some(q) ==> at_piece_of(s@, q as int, 11),
        q is None ==> no_record(s@),
{
    let len = s.unicode_len();
    let q = expect_at(s, p, "\"size_bytes\":");
    proof {
        assert forall|r: DecisionRecord| #[trigger] record_json(r) == s@ implies q == Some((p + "\"size_bytes\":"@.len()) as usize)
            && p + "\"size_bytes\":"@.len() == offset(record_pieces(r), 11) by {
            lemma_at_piece(s@, r, 10);
            lemma_piece_10(r);
        }
    }
    q
}

fn step_11(s: &str, p: usize) -> (res: Option<(u64, usize)>)
    requires
        at_piece_of(s@, p as int, 11),
    ensures
        res matches Some((v, q)) ==> at_piece_of(s@, q as int, 12)
            && forall|r: DecisionRecord| #[trigger] record_json(r) == s@ ==> v == r.size_bytes,
        res is None ==> no_record(s@),
{
    let len = s.unicode_len();
    let res = parse_u64(s, p);
    proof {
        assert forall|r: DecisionRecord| #[trigger] record_json(r) == s@ implies res == Some(((r.size_bytes) as u64, (p + decimal(r.size_bytes as nat).len()) as usize))
            && p + decimal(r.size_bytes as nat).len() == offset(record_pieces(r), 12) && p + decimal(r.size_bytes as nat).len() <= s@.len() by {
            lemma_at_piece(s@, r, 11);
            lemma_piece_11(r);
            lemma_at_piece(s@, r, 12);
            lemma_piece_12(r);
            reveal_strlit(",");
            assert(s@[offset(record_pieces(r), 12)] == record_pieces(r)[12][0]);
            assert(number_at(s@, p as int, ((r.size_bytes) as u64) as nat));
        }
    }
    match res {
        Some((v, q)) => Some((v, q)),
        None => None,
    }
}

fn step_12(s: &str, p: usize) -> (q: Option<usize>)
    requires
        at_piece_of(s@, p as int, 12),
    ensures
        q matches Some(q) ==> at_piece_of(s@, q as int, 13),
        q is None ==> no_record(s@),
{
    let len = s.unicode_len();
    let q = expect_at(s, p, ",");
    proof {
        assert forall|r: DecisionRecord| #[trigger] record_json(r) == s@ implies q == Some((p + ","@.len()) as usize)
            && p + ","@.len() == offset(record_pieces(r), 13) by {
            lemma_at_piece(s@, r, 12);
            lemma_piece_12(r);
        }
    }
    q
}

fn step_13(s: &str, p: usize) -> (q: Option<usize>)
    requires
        at_piece_of(s@, p as int, 13),
    ensures
        q matches Some(q) ==> at_piece_of(s@, q as int, 14),
        q is None ==> no_record(s@),
{
    let len = s.unicode_len();
    let q = expect_at(s, p, "\"age_secs\":");
    proof {
        assert forall|r: DecisionRecord| #[trigger] record_json(r) == s@ implies q == Some((p + "\"age_secs\":"@.len()) as usize)
            && p + "\"age_secs\":"@.len() == offset(record_pieces(r), 14) by {
            lemma_at_piece(s@, r, 13);
            lemma_piece_13(r);
        }
    }
    q
}

fn step_14(s: &str, p: usize) -> (res: Option<(u64, usize)>)
    requires
        at_piece_of(s@, p as int, 14),
    ensures
        res matches Some((v, q)) ==> at_piece_of(s@, q as int, 15)
            && forall|r: DecisionRecord| #[trigger] record_json(r) == s@ ==> v == r.age_secs,
        res is None ==> no_record(s@),
{
    let len = s.unicode_len();
    let res = parse_u64(s, p);
    proof {
        assert forall|r: DecisionRecord| #[trigger] record_json(r) == s@ implies res == Some(((r.age_secs) as u64, (p + decimal(r.age_secs as nat).len()) as usize))
            && p + decimal(r.age_secs as nat).len() == offset(record_pieces(r), 15) && p + decimal(r.age_secs as nat).len() <= s@.len() by {
            lemma_at_piece(s@, r, 14);
            lemma_piece_14(r);
            lemma_at_piece(s@, r, 15);
            lemma_piece_15(r);
            reveal_strlit(",");
            assert(s@[offset(record_pieces(r), 15)] == record_pieces(r)[15][0]);
            assert(number_at(s@, p as int, ((r.age_secs) as u64) as nat));
        }
    }
    match res {
        Some((v, q)) => Some((v, q)),
        None => None,
    }
}

fn step_15(s: &str, p: usize) -> (q: Option<usize>)
    requires
        at_piece_of(s@, p as int, 15),
    ensures
        q matches Some(q) ==> at_piece_of(s@, q as int, 16),
        q is None ==> no_record(s@),
{
    let len = s.unicode_len();
    let q = expect_at(s, p, ",");
    proof {
        assert forall|r: DecisionRecord| #[trigger] record_json(r) == s@ implies q == Some((p + ","@.len()) as usize)
            && p + ","@.len() == offset(record_pieces(r), 16) by {
            lemma_at_piece(s@, r, 15);
            lemma_piece_15(r);
        }
    }
    q
}

fn step_16(s: &str, p: usize) -> (q: Option<usize>)
    requires
        at_piece_of(s@, p as int, 16),
    ensures
        q matches Some(q) ==> at_piece_of(s@, q as int, 17),
        q is None ==> no_record(s@),
{
    let len = s.unicode_len();
    let q = expect_at(s, p, "\"action\":");
    proof {
        assert forall|r: DecisionRecord| #[trigger] record_json(r) == s@ implies q == Some((p + "\"action\":"@.len()) as usize)
            && p + "\"action\":"@.len() == offset(record_pieces(r), 17) by {
            lemma_at_piece(s@, r, 16);
            lemma_piece_16(r);
        }
    }
    q
}

fn step_17(s: &str, p: usize) -> (res: Option<(String, usize)>)
    requires
        at_piece_of(s@, p as int, 17),
    ensures
        res matches Some((v, q)) ==> at_piece_of(s@, q as int, 18)
            && forall|r: DecisionRecord| #[trigger] record_json(r) == s@ ==> v@ == r.action.label(),
        res is None ==> no_record(s@),
{
    let len = s.unicode_len();
    let res = parse_json_string(s, p);
    proof {
        assert forall|r: DecisionRecord| #[trigger] record_json(r) == s@ implies (res matches Some((v, q)) && v@ == r.action.label()
            && q == p + json_string(r.action.label()).len() && q == offset(record_pieces(r), 18)) by {
            lemma_at_piece(s@, r, 17);
            lemma_piece_17(r);
            assert(string_at(s@, p as int, r.action.label()));
        }
    }
    res
}

fn step_18(s: &str, p: usize) -> (q: Option<usize>)
    requires
        at_piece_of(s@, p as int, 18),
    ensures
        q matches Some(q) ==> at_piece_of(s@, q as int, 19),
        q is None ==> no_record(s@),
{
    let len = s.unicode_len();
    let q = expect_at(s, p, ",");
    proof {
        assert forall|r: DecisionRecord| #[trigger] record_json(r) == s@ implies q == Some((p + ","@.len()) as usize)
            && p + ","@.len() == offset(record_pieces(r), 19) by {
            lemma_at_piece(s@, r, 18);
            lemma_piece_18(r);
        }
    }
    q
}

fn step_19(s: &str, p: usize) -> (q: Option<usize>)
    requires
        at_piece_of(s@, p as int, 19),
    ensures
        q matches Some(q) ==> at_piece_of(s@, q as int, 20),
        q is None ==> no_record(s@),
{
    let len = s.unicode_len();
    let q = expect_at(s, p, "\"effective_action\":");
    proof {
        assert forall|r: DecisionRecord| #[trigger] record_json(r) == s@ implies q == Some((p + "\"effective_action\":"@.len()) as usize)
            && p + "\"effective_action\":"@.len() == offset(record_pieces(r), 20) by {
            lemma_at_piece(s@, r, 19);
            lemma_piece_19(r);
        }
    }
    q
}

fn step_20(s: &str, p: usize) -> (res: Option<(String, usize)>)
    requires
        at_piece_of(s@, p as int, 20),
    ensures
        res matches Some((v, q)) ==> at_piece_of(s@, q as int, 21)
            && forall|r: DecisionRecord| #[trigger] record_json(r) == s@ ==> v@ == r.effective_action.label(),
        res is None ==> no_record(s@),
{
    let len = s.unicode_len();
    let res = parse_json_string(s, p);
    proof {
        assert forall|r: DecisionRecord| #[trigger] record_json(r) == s@ implies (res matches Some((v, q)) && v@ == r.effective_action.label()
            && q == p + json_string(r.effective_action.label()).len() && q == offset(record_pieces(r), 21)) by {
            lemma_at_piece(s@, r, 20);
            lemma_piece_20(r);
            assert(string_at(s@, p as int, r.effective_action.label()));
        }
    }
    res
}

fn step_21(s: &str, p: usize) -> (q: Option<usize>)
    requires
        at_piece_of(s@, p as int, 21),
    ensures
        q matches Some(q) ==> at_piece_of(s@, q as int, 22),
        q is None ==> no_record(s@),
{
    let len = s.unicode_len();
    let q = expect_at(s, p, ",");
    proof {
        assert forall|r: DecisionRecord| #[trigger] record_json(r) == s@ implies q == Some((p + ","@.len()) as usize)
            && p + ","@.len() == offset(record_pieces(r), 22) by {
            lemma_at_piece(s@, r, 21);
            lemma_piece_21(r);
        }
    }
    q
}

fn step_22(s: &str, p: usize) -> (q: Option<usize>)
    requires
        at_piece_of(s@, p as int, 22),
    ensures
        q matches Some(q) ==> at_piece_of(s@, q as int, 23),
        q is None ==> no_record(s@),
{
    let len = s.unicode_len();
    let q = expect_at(s, p, "\"policy_mode\":");
    proof {
        assert forall|r: DecisionRecord| #[trigger] record_json(r) == s@ implies q == Some((p + "\"policy_mode\":"@.len()) as usize)
            && p + "\"policy_mode\":"@.len() == offset(record_pieces(r), 23) by {
            lemma_at_piece(s@, r, 22);
            lemma_piece_22(r);
        }
    }
    q
}

fn step_23(s: &str, p: usize) -> (res: Option<(String, usize)>)
    requires
        at_piece_of(s@, p as int, 23),
    ensures
        res matches Some((v, q)) ==> at_piece_of(s@, q as int, 24)
            && forall|r: DecisionRecord| #[trigger] record_json(r) == s@ ==> v@ == r.policy_mode.label(),
        res is None ==> no_record(s@),
{
    let len = s.unicode_len();
    let res = parse_json_string(s, p);
    proof {
        assert forall|r: DecisionRecord| #[trigger] record_json(r) == s@ implies (res matches Some((v, q)) && v@ == r.policy_mode.label()
            && q == p + json_string(r.policy_mode.label()).len() && q == offset(record_pieces(r), 24)) by {
            lemma_at_piece(s@, r, 23);
            lemma_piece_23(r);
            assert(string_at(s@, p as int, r.policy_mode.label()));
        }
    }
    res
}

fn step_24(s: &str, p: usize) -> (q: Option<usize>)
    requires
        at_piece_of(s@, p as int, 24),
    ensures
        q matches Some(q) ==> at_piece_of(s@, q as int, 25),
        q is None ==> no_record(s@),
{
    let len = s.unicode_len();
    let q = expect_at(s, p, ",");
    proof {
        assert forall|r: DecisionRecord| #[trigger] record_json(r) == s@ implies q == Some((p + ","@.len()) as usize)
            && p + ","@.len() == offset(record_pieces(r), 25) by {
            lemma_at_piece(s@, r, 24);
            lemma_piece_24(r);
        }
    }
    q
}

fn step_25(s: &str, p: usize) -> (q: Option<usize>)
    requires
        at_piece_of(s@, p as int, 25),
    ensures
        q matches Some(q) ==> at_piece_of(s@, q as int, 26),
        q is None ==> no_record(s@),
{
    let len = s.unicode_len();
    let q = expect_at(s, p, "\"factors\":");
    proof {
        assert forall|r: DecisionRecord| #[trigger] record_json(r) == s@ implies q == Some((p + "\"factors\":"@.len()) as usize)
            && p + "\"factors\":"@.len() == offset(record_pieces(r), 26) by {
            lemma_at_piece(s@, r, 25);
            lemma_piece_25(r);
        }
    }
    q
}

fn step_26(s: &str, p: usize) -> (q: Option<usize>)
    requires
        at_piece_of(s@, p as int, 26),
    ensures
        q matches Some(q) ==> at_piece_of(s@, q as int, 27),
        q is None ==> no_record(s@),
{
    let len = s.unicode_len();
    let q = expect_at(s, p, "{");
    proof {
        assert forall|r: DecisionRecord| #[trigger] record_json(r) == s@ implies q == Some((p + "{"@.len()) as usize)
            && p + "{"@.len() == offset(record_pieces(r), 27) by {
            lemma_at_piece(s@, r, 26);
            lemma_piece_26(r);
        }
    }
    q
}

fn step_27(s: &str, p: usize) -> (q: Option<usize>)
    requires
        at_piece_of(s@, p as int, 27),
    ensures
        q matches Some(q) ==> at_piece_of(s@, q as int, 28),
        q is None ==> no_record(s@),
{
    let len = s.unicode_len();
    let q = expect_at(s, p, "\"location\":");
    proof {
        assert forall|r: DecisionRecord| #[trigger] record_json(r) == s@ implies q == Some((p + "\"location\":"@.len()) as usize)
            && p + "\"location\":"@.len() == offset(record_pieces(r), 28) by {
            lemma_at_piece(s@, r, 27);
            lemma_piece_27(r);
        }
    }
    q
}

fn step_28(s: &str, p: usize) -> (res: Option<(u32, usize)>)
    requires
        at_piece_of(s@, p as int, 28),
    ensures
        res matches Some((v, q)) ==> at_piece_of(s@, q as int, 29)
            && forall|r: DecisionRecord| #[trigger] record_json(r) == s@ ==> v == r.factors.location,
        res is None ==> no_record(s@),
{
    let len = s.unicode_len();
    let res = parse_u64(s, p);
    proof {
        assert forall|r: DecisionRecord| #[trigger] record_json(r) == s@ implies res == Some(((r.factors.location) as u64, (p + decimal(r.factors.location as nat).len()) as usize))
            && p + decimal(r.factors.location as nat).len() == offset(record_pieces(r), 29) && p + decimal(r.factors.location as nat).len() <= s@.len() by {
            lemma_at_piece(s@, r, 28);
            lemma_piece_28(r);
            lemma_at_piece(s@, r, 29);
            lemma_piece_29(r);
            reveal_strlit(",");
            assert(s@[offset(record_pieces(r), 29)] == record_pieces(r)[29][0]);
            assert(number_at(s@, p as int, ((r.factors.location) as u64) as nat));
        }
    }
    match res {
        Some((v, q)) => if v > 0xffff_ffff { None } else { Some((v as u32, q)) },
        None => None,
    }
}

fn step_29(s: &str, p: usize) -> (q: Option<usize>)
    requires
        at_piece_of(s@, p as int, 29),
    ensures
        q matches Some(q) ==> at_piece_of(s@, q as int, 30),
        q is None ==> no_record(s@),
{
    let len = s.unicode_len();
    let q = expect_at(s, p, ",");
    proof {
        assert forall|r: DecisionRecord| #[trigger] record_json(r) == s@ implies q == Some((p + ","@.len()) as usize)
            && p + ","@.len() == offset(record_pieces(r), 30) by {
            lemma_at_piece(s@, r, 29);
            lemma_piece_29(r);
        }
    }
    q
}

fn step_30(s: &str, p: usize) -> (q: Option<usize>)
    requires
        at_piece_of(s@, p as int, 30),
    ensures
        q matches Some(q) ==> at_piece_of(s@, q as int, 31),
        q is None ==> no_record(s@),
{
    let len = s.unicode_len();
    let q = expect_at(s, p, "\"name\":");
    proof {
        assert forall|r: DecisionRecord| #[trigger] record_json(r) == s@ implies q == Some((p + "\"name\":"@.len()) as usize)
            && p + "\"name\":"@.len() == offset(record_pieces(r), 31) by {
            lemma_at_piece(s@, r, 30);
            lemma_piece_30(r);
        }
    }
    q
}

fn step_31(s: &str, p: usize) -> (res: Option<(u32, usize)>)
    requires
        at_piece_of(s@, p as int, 31),
    ensures
        res matches Some((v, q)) ==> at_piece_of(s@, q as int, 32)
            && forall|r: DecisionRecord| #[trigger] record_json(r) == s@ ==> v == r.factors.name,
        res is None ==> no_record(s@),
{
    let len = s.unicode_len();
    let res = parse_u64(s, p);
    proof {
        assert forall|r: DecisionRecord| #[trigger] record_json(r) == s@ implies res == Some(((r.factors.name) as u64, (p + decimal(r.factors.name as nat).len()) as usize))
            && p + decimal(r.factors.name as nat).len() == offset(record_pieces(r), 32) && p + decimal(r.factors.name as nat).len() <= s@.len() by {
            lemma_at_piece(s@, r, 31);
            lemma_piece_31(r);
            lemma_at_piece(s@, r, 32);
            lemma_piece_32(r);
            reveal_strlit(",");
            assert(s@[offset(record_pieces(r), 32)] == record_pieces(r)[32][0]);
            assert(number_at(s@, p as int, ((r.factors.name) as u64) as nat));
        }
    }
    match res {
        Some((v, q)) => if v > 0xffff_ffff { None } else { Some((v as u32, q)) },
        None => None,
    }
}

fn step_32(s: &str, p: usize) -> (q: Option<usize>)
    requires
        at_piece_of(s@, p as int, 32),
    ensures
        q matches Some(q) ==> at_piece_of(s@, q as int, 33),
        q is None ==> no_record(s@),
{
    let len = s.unicode_len();
    let q = expect_at(s, p, ",");
    proof {
        assert forall|r: DecisionRecord| #[trigger] record_json(r) == s@ implies q == Some((p + ","@.len()) as usize)
            && p + ","@.len() == offset(record_pieces(r), 33) by {
            lemma_at_piece(s@, r, 32);
            lemma_piece_32(r);
        }
    }
    q
}

fn step_33(s: &str, p: usize) -> (q: Option<usize>)
    requires
        at_piece_of(s@, p as int, 33),
    ensures
        q matches Some(q) ==> at_piece_of(s@, q as int, 34),
        q is None ==> no_record(s@),
{
    let len = s.unicode_len();
    let q = expect_at(s, p, "\"age\":");
    proof {
        assert forall|r: DecisionRecord| #[trigger] record_json(r) == s@ implies q == Some((p + "\"age\":"@.len()) as usize)
            && p + "\"age\":"@.len() == offset(record_pieces(r), 34) by {
            lemma_at_piece(s@, r, 33);
            lemma_piece_33(r);
        }
    }
    q
}

fn step_34(s: &str, p: usize) -> (res: Option<(u32, usize)>)
    requires
        at_piece_of(s@, p as int, 34),
    ensures
        res matches Some((v, q)) ==> at_piece_of(s@, q as int, 35)
            && forall|r: DecisionRecord| #[trigger] record_json(r) == s@ ==> v == r.factors.age,
        res is None ==> no_record(s@),
{
    let len = s.unicode_len();
    let res = parse_u64(s, p);
    proof {
        assert forall|r: DecisionRecord| #[trigger] record_json(r) == s@ implies res == Some(((r.factors.age) as u64, (p + decimal(r.factors.age as nat).len()) as usize))
            && p + decimal(r.factors.age as nat).len() == offset(record_pieces(r), 35) && p + decimal(r.factors.age as nat).len() <= s@.len() by {
            lemma_at_piece(s@, r, 34);
            lemma_piece_34(r);
            lemma_at_piece(s@, r, 35);
            lemma_piece_35(r);
            reveal_strlit(",");
            assert(s@[offset(record_pieces(r), 35)] == record_pieces(r)[35][0]);
            assert(number_at(s@, p as int, ((r.factors.age) as u64) as nat));
        }
    }
    match res {
        Some((v, q)) => if v > 0xffff_ffff { None } else { Some((v as u32, q)) },
        None => None,
    }
}

fn step_35(s: &str, p: usize) -> (q: Option<usize>)
    requires
        at_piece_of(s@, p as int, 35),
    ensures
        q matches Some(q) ==> at_piece_of(s@, q as int, 36),
        q is None ==> no_record(s@),
{
    let len = s.unicode_len();
    let q = expect_at(s, p, ",");
    proof {
        assert forall|r: DecisionRecord| #[trigger] record_json(r) == s@ implies q == Some((p + ","@.len()) as usize)
            && p + ","@.len() == offset(record_pieces(r), 36) by {
            lemma_at_piece(s@, r, 35);
            lemma_piece_35(r);
        }
    }
    q
}

fn step_36(s: &str, p: usize) -> (q: Option<usize>)
    requires
        at_piece_of(s@, p as int, 36),
    ensures
        q matches Some(q) ==> at_piece_of(s@, q as int, 37),
        q is None ==> no_record(s@),
{
    let len = s.unicode_len();
    let q = expect_at(s, p, "\"size\":");
    proof {
        assert forall|r: DecisionRecord| #[trigger] record_json(r) == s@ implies q == Some((p + "\"size\":"@.len()) as usize)
            && p + "\"size\":"@.len() == offset(record_pieces(r), 37) by {
            lemma_at_piece(s@, r, 36);
            lemma_piece_36(r);
        }
    }
    q
}

fn step_37(s: &str, p: usize) -> (res: Option<(u32, usize)>)
    requires
        at_piece_of(s@, p as int, 37),
    ensures
        res matches Some((v, q)) ==> at_piece_of(s@, q as int, 38)
            && forall|r: DecisionRecord| #[trigger] record_json(r) == s@ ==> v == r.factors.size,
        res is None ==> no_record(s@),
{
    let len = s.unicode_len();
    let res = parse_u64(s, p);
    proof {
        assert forall|r: DecisionRecord| #[trigger] record_json(r) == s@ implies res == Some(((r.factors.size) as u64, (p + decimal(r.factors.size as nat).len()) as usize))
            && p + decimal(r.factors.size as nat).len() == offset(record_pieces(r), 38) && p + decimal(r.factors.size as nat).len() <= s@.len() by {
            lemma_at_piece(s@, r, 37);
            lemma_piece_37(r);
            lemma_at_piece(s@, r, 38);
            lemma_piece_38(r);
            reveal_strlit(",");
            assert(s@[offset(record_pieces(r), 38)] == record_pieces(r)[38][0]);
            assert(number_at(s@, p as int, ((r.factors.size) as u64) as nat));
        }
    }
    match res {
        Some((v, q)) => if v > 0xffff_ffff { None } else { Some((v as u32, q)) },
        None => None,
    }
}

fn step_38(s: &str, p: usize) -> (q: Option<usize>)
    requires
        at_piece_of(s@, p as int, 38),
    ensures
        q matches Some(q) ==> at_piece_of(s@, q as int, 39),
        q is None ==> no_record(s@),
{
    let len = s.unicode_len();
    let q = expect_at(s, p, ",");
    proof {
        assert forall|r: DecisionRecord| #[trigger] record_json(r) == s@ implies q == Some((p + ","@.len()) as usize)
            && p + ","@.len() == offset(record_pieces(r), 39) by {
            lemma_at_piece(s@, r, 38);
            lemma_piece_38(r);
        }
    }
    q
}

fn step_39(s: &str, p: usize) -> (q: Option<usize>)
    requires
        at_piece_of(s@, p as int, 39),
    ensures
        q matches Some(q) ==> at_piece_of(s@, q as int, 40),
        q is None ==> no_record(s@),
{
    let len = s.unicode_len();
    let q = expect_at(s, p, "\"structure\":");
    proof {
        assert forall|r: DecisionRecord| #[trigger] record_json(r) == s@ implies q == Some((p + "\"structure\":"@.len()) as usize)
            && p + "\"structure\":"@.len() == offset(record_pieces(r), 40) by {
            lemma_at_piece(s@, r, 39);
            lemma_piece_39(r);
        }
    }
    q
}

fn step_40(s: &str, p: usize) -> (res: Option<(u32, usize)>)
    requires
        at_piece_of(s@, p as int, 40),
    ensures
        res matches Some((v, q)) ==> at_piece_of(s@, q as int, 41)
            && forall|r: DecisionRecord| #[trigger] record_json(r) == s@ ==> v == r.factors.structure,
        res is None ==> no_record(s@),
{
    let len = s.unicode_len();
    let res = parse_u64(s, p);
    proof {
        assert forall|r: DecisionRecord| #[trigger] record_json(r) == s@ implies res == Some(((r.factors.structure) as u64, (p + decimal(r.factors.structure as nat).len()) as usize))
            && p + decimal(r.factors.structure as nat).len() == offset(record_pieces(r), 41) && p + decimal(r.factors.structure as nat).len() <= s@.len() by {
            lemma_at_piece(s@, r, 40);
            lemma_piece_40(r);
            lemma_at_piece(s@, r, 41);
            lemma_piece_41(r);
            reveal_strlit(",");
            assert(s@[offset(record_pieces(r), 41)] == record_pieces(r)[41][0]);
            assert(number_at(s@, p as int, ((r.factors.structure) as u64) as nat));
        }
    }
    match res {
        Some((v, q)) => if v > 0xffff_ffff { None } else { Some((v as u32, q)) },
        None => None,
    }
}

fn step_41(s: &str, p: usize) -> (q: Option<usize>)
    requires
        at_piece_of(s@, p as int, 41),
    ensures
        q matches Some(q) ==> at_piece_of(s@, q as int, 42),
        q is None ==> no_record(s@),
{
    let len = s.unicode_len();
    let q = expect_at(s, p, ",");
    proof {
        assert forall|r: DecisionRecord| #[trigger] record_json(r) == s@ implies q == Some((p + ","@.len()) as usize)
            && p + ","@.len() == offset(record_pieces(r), 42) by {
            lemma_at_piece(s@, r, 41);
            lemma_piece_41(r);
        }
    }
    q
}

fn step_42(s: &str, p: usize) -> (q: Option<usize>)
    requires
        at_piece_of(s@, p as int, 42),
    ensures
        q matches Some(q) ==> at_piece_of(s@, q as int, 43),
        q is None ==> no_record(s@),
{
    let len = s.unicode_len();
    let q = expect_at(s, p, "\"pressure_multiplier\":");
    proof {
        assert forall|r: DecisionRecord| #[trigger] record_json(r) == s@ implies q == Some((p + "\"pressure_multiplier\":"@.len()) as usize)
            && p + "\"pressure_multiplier\":"@.len() == offset(record_pieces(r), 43) by {
            lemma_at_piece(s@, r, 42);
            lemma_piece_42(r);
        }
    }
    q
}

fn step_43(s: &str, p: usize) -> (res: Option<(u32, usize)>)
    requires
        at_piece_of(s@, p as int, 43),
    ensures
        res matches Some((v, q)) ==> at_piece_of(s@, q as int, 44)
            && forall|r: DecisionRecord| #[trigger] record_json(r) == s@ ==> v == r.factors.pressure_multiplier,
        res is None ==> no_record(s@),
{
    let len = s.unicode_len();
    let res = parse_u64(s, p);
    proof {
        assert forall|r: DecisionRecord| #[trigger] record_json(r) == s@ implies res == Some(((r.factors.pressure_multiplier) as u64, (p + decimal(r.factors.pressure_multiplier as nat).len()) as usize))
            && p + decimal(r.factors.pressure_multiplier as nat).len() == offset(record_pieces(r), 44) && p + decimal(r.factors.pressure_multiplier as nat).len() <= s@.len() by {
            lemma_at_piece(s@, r, 43);
            lemma_piece_43(r);
            lemma_at_piece(s@, r, 44);
            lemma_piece_44(r);
            reveal_strlit("}");
            assert(s@[offset(record_pieces(r), 44)] == record_pieces(r)[44][0]);
            assert(number_at(s@, p as int, ((r.factors.pressure_multiplier) as u64) as nat));
        }
    }
    match res {
        Some((v, q)) => if v > 0xffff_ffff { None } else { Some((v as u32, q)) },
        None => None,
    }
}

fn step_44(s: &str, p: usize) -> (q: Option<usize>)
    requires
        at_piece_of(s@, p as int, 44),
    ensures
        q matches Some(q) ==> at_piece_of(s@, q as int, 45),
        q is None ==> no_record(s@),
{
    let len = s.unicode_len();
    let q = expect_at(s, p, "}");
    proof {
        assert forall|r: DecisionRecord| #[trigger] record_json(r) == s@ implies q == Some((p + "}"@.len()) as usize)
            && p + "}"@.len() == offset(record_pieces(r), 45) by {
            lemma_at_piece(s@, r, 44);
            lemma_piece_44(r);
        }
    }
    q
}

fn step_45(s: &str, p: usize) -> (q: Option<usize>)
    requires
        at_piece_of(s@, p as int, 45),
    ensures
        q matches Some(q) ==> at_piece_of(s@, q as int, 46),
        q is None ==> no_record(s@),
{
    let len = s.unicode_len();
    let q = expect_at(s, p, ",");
    proof {
        assert forall|r: DecisionRecord| #[trigger] record_json(r) == s@ implies q == Some((p + ","@.len()) as usize)
            && p + ","@.len() == offset(record_pieces(r), 46) by {
            lemma_at_piece(s@, r, 45);
            lemma_piece_45(r);
        }
    }
    q
}

fn step_46(s: &str, p: usize) -> (q: Option<usize>)
    requires
        at_piece_of(s@, p as int, 46),
    ensures
        q matches Some(q) ==> at_piece_of(s@, q as int, 47),
        q is None ==> no_record(s@),
{
    let len = s.unicode_len();
    let q = expect_at(s, p, "\"total_score\":");
    proof {
        assert forall|r: DecisionRecord| #[trigger] record_json(r) == s@ implies q == Some((p + "\"total_score\":"@.len()) as usize)
            && p + "\"total_score\":"@.len() == offset(record_pieces(r), 47) by {
            lemma_at_piece(s@, r, 46);
            lemma_piece_46(r);
        }
    }
    q
}

fn step_47(s: &str, p: usize) -> (res: Option<(u32, usize)>)
    requires
        at_piece_of(s@, p as int, 47),
    ensures
        res matches Some((v, q)) ==> at_piece_of(s@, q as int, 48)
            && forall|r: DecisionRecord| #[trigger] record_json(r) == s@ ==> v == r.total_score,
        res is None ==> no_record(s@),
{
    let len = s.unicode_len();
    let res = parse_u64(s, p);
    proof {
        assert forall|r: DecisionRecord| #[trigger] record_json(r) == s@ implies res == Some(((r.total_score) as u64, (p + decimal(r.total_score as nat).len()) as usize))
            && p + decimal(r.total_score as nat).len() == offset(record_pieces(r), 48) && p + decimal(r.total_score as nat).len() <= s@.len() by {
            lemma_at_piece(s@, r, 47);
            lemma_piece_47(r);
            lemma_at_piece(s@, r, 48);
            lemma_piece_48(r);
            reveal_strlit(",");
            assert(s@[offset(record_pieces(r), 48)] == record_pieces(r)[48][0]);
            assert(number_at(s@, p as int, ((r.total_score) as u64) as nat));
        }
    }
    match res {
        Some((v, q)) => if v > 0xffff_ffff { None } else { Some((v as u32, q)) },
        None => None,
    }
}

fn step_48(s: &str, p: usize) -> (q: Option<usize>)
    requires
        at_piece_of(s@, p as int, 48),
    ensures
        q matches Some(q) ==> at_piece_of(s@, q as int, 49),
        q is None ==> no_record(s@),
{
    let len = s.unicode_len();
    let q = expect_at(s, p, ",");
    proof {
        assert forall|r: DecisionRecord| #[trigger] record_json(r) == s@ implies q == Some((p + ","@.len()) as usize)
            && p + ","@.len() == offset(record_pieces(r), 49) by {
            lemma_at_piece(s@, r, 48);
            lemma_piece_48(r);
        }
    }
    q
}

fn step_49(s: &str, p: usize) -> (q: Option<usize>)
    requires
        at_piece_of(s@, p as int, 49),
    ensures
        q matches Some(q) ==> at_piece_of(s@, q as int, 50),
        q is None ==> no_record(s@),
{
    let len = s.unicode_len();
    let q = expect_at(s, p, "\"posterior_abandoned\":");
    proof {
        assert forall|r: DecisionRecord| #[trigger] record_json(r) == s@ implies q == Some((p + "\"posterior_abandoned\":"@.len()) as usize)
            && p + "\"posterior_abandoned\":"@.len() == offset(record_pieces(r), 50) by {
            lemma_at_piece(s@, r, 49);
            lemma_piece_49(r);
        }
    }
    q
}

fn step_50(s: &str, p: usize) -> (res: Option<(u32, usize)>)
    requires
        at_piece_of(s@, p as int, 50),
    ensures
        res matches Some((v, q)) ==> at_piece_of(s@, q as int, 51)
            && forall|r: DecisionRecord| #[trigger] record_json(r) == s@ ==> v == r.posterior_abandoned,
        res is None ==> no_record(s@),
{
    let len = s.unicode_len();
    let res = parse_u64(s, p);
    proof {
        assert forall|r: DecisionRecord| #[trigger] record_json(r) == s@ implies res == Some(((r.posterior_abandoned) as u64, (p + decimal(r.posterior_abandoned as nat).len()) as usize))
            && p + decimal(r.posterior_abandoned as nat).len() == offset(record_pieces(r), 51) && p + decimal(r.posterior_abandoned as nat).len() <= s@.len() by {
            lemma_at_piece(s@, r, 50);
            lemma_piece_50(r);
            lemma_at_piece(s@, r, 51);
            lemma_piece_51(r);
            reveal_strlit(",");
            assert(s@[offset(record_pieces(r), 51)] == record_pieces(r)[51][0]);
            assert(number_at(s@, p as int, ((r.posterior_abandoned) as u64) as nat));
        }
    }
    match res {
        Some((v, q)) => if v > 0xffff_ffff { None } else { Some((v as u32, q)) },
        None => None,
    }
}

fn step_51(s: &str, p: usize) -> (q: Option<usize>)
    requires
        at_piece_of(s@, p as int, 51),
    ensures
        q matches Some(q) ==> at_piece_of(s@, q as int, 52),
        q is None ==> no_record(s@),
{
    let len = s.unicode_len();
    let q = expect_at(s, p, ",");
    proof {
        assert forall|r: DecisionRecord| #[trigger] record_json(r) == s@ implies q == Some((p + ","@.len()) as usize)
            && p + ","@.len() == offset(record_pieces(r), 52) by {
            lemma_at_piece(s@, r, 51);
            lemma_piece_51(r);
        }
    }
    q
}

fn step_52(s: &str, p: usize) -> (q: Option<usize>)
    requires
        at_piece_of(s@, p as int, 52),
    ensures
        q matches Some(q) ==> at_piece_of(s@, q as int, 53),
        q is None ==> no_record(s@),
{
    let len = s.unicode_len();
    let q = expect_at(s, p, "\"expected_loss_keep\":");
    proof {
        assert forall|r: DecisionRecord| #[trigger] record_json(r) == s@ implies q == Some((p + "\"expected_loss_keep\":"@.len()) as usize)
            && p + "\"expected_loss_keep\":"@.len() == offset(record_pieces(r), 53) by {
            lemma_at_piece(s@, r, 52);
            lemma_piece_52(r);
        }
    }
    q
}

fn step_53(s: &str, p: usize) -> (res: Option<(u64, usize)>)
    requires
        at_piece_of(s@, p as int, 53),
    ensures
        res matches Some((v, q)) ==> at_piece_of(s@, q as int, 54)
            && forall|r: DecisionRecord| #[trigger] record_json(r) == s@ ==> v == r.expected_loss_keep,
        res is None ==> no_record(s@),
{
    let len = s.unicode_len();
    let res = parse_u64(s, p);
    proof {
        assert forall|r: DecisionRecord| #[trigger] record_json(r) == s@ implies res == Some(((r.expected_loss_keep) as u64, (p + decimal(r.expected_loss_keep as nat).len()) as usize))
            && p + decimal(r.expected_loss_keep as nat).len() == offset(record_pieces(r), 54) && p + decimal(r.expected_loss_keep as nat).len() <= s@.len() by {
            lemma_at_piece(s@, r, 53);
            lemma_piece_53(r);
            lemma_at_piece(s@, r, 54);
            lemma_piece_54(r);
            reveal_strlit(",");
            assert(s@[offset(record_pieces(r), 54)] == record_pieces(r)[54][0]);
            assert(number_at(s@, p as int, ((r.expected_loss_keep) as u64) as nat));
        }
    }
    match res {
        Some((v, q)) => Some((v, q)),
        None => None,
    }
}

fn step_54(s: &str, p: usize) -> (q: Option<usize>)
    requires
        at_piece_of(s@, p as int, 54),
    ensures
        q matches Some(q) ==> at_piece_of(s@, q as int, 55),
        q is None ==> no_record(s@),
{
    let len = s.unicode_len();
    let q = expect_at(s, p, ",");
    proof {
        assert forall|r: DecisionRecord| #[trigger] record_json(r) == s@ implies q == Some((p + ","@.len()) as usize)
            && p + ","@.len() == offset(record_pieces(r), 55) by {
            lemma_at_piece(s@, r, 54);
            lemma_piece_54(r);
        }
    }
    q
}

fn step_55(s: &str, p: usize) -> (q: Option<usize>)
    requires
        at_piece_of(s@, p as int, 55),
    ensures
        q matches Some(q) ==> at_piece_of(s@, q as int, 56),
        q is None ==> no_record(s@),
{
    let len = s.unicode_len();
    let q = expect_at(s, p, "\"expected_loss_delete\":");
    proof {
        assert forall|r: DecisionRecord| #[trigger] record_json(r) == s@ implies q == Some((p + "\"expected_loss_delete\":"@.len()) as usize)
            && p + "\"expected_loss_delete\":"@.len() == offset(record_pieces(r), 56) by {
            lemma_at_piece(s@, r, 55);
            lemma_piece_55(r);
        }
    }
    q
}

fn step_56(s: &str, p: usize) -> (res: Option<(u64, usize)>)
    requires
        at_piece_of(s@, p as int, 56),
    ensures
        res matches Some((v, q)) ==> at_piece_of(s@, q as int, 57)
            && forall|r: DecisionRecord| #[trigger] record_json(r) == s@ ==> v == r.expected_loss_delete,
        res is None ==> no_record(s@),
{
    let len = s.unicode_len();
    let res = parse_u64(s, p);
    proof {
        assert forall|r: DecisionRecord| #[trigger] record_json(r) == s@ implies res == Some(((r.expected_loss_delete) as u64, (p + decimal(r.expected_loss_delete as nat).len()) as usize))
            && p + decimal(r.expected_loss_delete as nat).len() == offset(record_pieces(r), 57) && p + decimal(r.expected_loss_delete as nat).len() <= s@.len() by {
            lemma_at_piece(s@, r, 56);
            lemma_piece_56(r);
            lemma_at_piece(s@, r, 57);
            lemma_piece_57(r);
            reveal_strlit(",");
            assert(s@[offset(record_pieces(r), 57)] == record_pieces(r)[57][0]);
            assert(number_at(s@, p as int, ((r.expected_loss_delete) as u64) as nat));
        }
    }
    match res {
        Some((v, q)) => Some((v, q)),
        None => None,
    }
}

fn step_57(s: &str, p: usize) -> (q: Option<usize>)
    requires
        at_piece_of(s@, p as int, 57),
    ensures
        q matches Some(q) ==> at_piece_of(s@, q as int, 58),
        q is None ==> no_record(s@),
{
    let len = s.unicode_len();
    let q = expect_at(s, p, ",");
    proof {
        assert forall|r: DecisionRecord| #[trigger] record_json(r) == s@ implies q == Some((p + ","@.len()) as usize)
            && p + ","@.len() == offset(record_pieces(r), 58) by {
            lemma_at_piece(s@, r, 57);
            lemma_piece_57(r);
        }
    }
    q
}

fn step_58(s: &str, p: usize) -> (q: Option<usize>)
    requires
        at_piece_of(s@, p as int, 58),
    ensures
        q matches Some(q) ==> at_piece_of(s@, q as int, 59),
        q is None ==> no_record(s@),
{
    let len = s.unicode_len();
    let q = expect_at(s, p, "\"calibration_score\":");
    proof {
        assert forall|r: DecisionRecord| #[trigger] record_json(r) == s@ implies q == Some((p + "\"calibration_score\":"@.len()) as usize)
            && p + "\"calibration_score\":"@.len() == offset(record_pieces(r), 59) by {
            lemma_at_piece(s@, r, 58);
            lemma_piece_58(r);
        }
    }
    q
}

fn step_59(s: &str, p: usize) -> (res: Option<(u32, usize)>)
    requires
        at_piece_of(s@, p as int, 59),
    ensures
        res matches Some((v, q)) ==> at_piece_of(s@, q as int, 60)
            && forall|r: DecisionRecord| #[trigger] record_json(r) == s@ ==> v == r.calibration_score,
        res is None ==> no_record(s@),
{
    let len = s.unicode_len();
    let res = parse_u64(s, p);
    proof {
        assert forall|r: DecisionRecord| #[trigger] record_json(r) == s@ implies res == Some(((r.calibration_score) as u64, (p + decimal(r.calibration_score as nat).len()) as usize))
            && p + decimal(r.calibration_score as nat).len() == offset(record_pieces(r), 60) && p + decimal(r.calibration_score as nat).len() <= s@.len() by {
            lemma_at_piece(s@, r, 59);
            lemma_piece_59(r);
            lemma_at_piece(s@, r, 60);
            lemma_piece_60(r);
            reveal_strlit(",");
            assert(s@[offset(record_pieces(r), 60)] == record_pieces(r)[60][0]);
            assert(number_at(s@, p as int, ((r.calibration_score) as u64) as nat));
        }
    }
    match res {
        Some((v, q)) => if v > 0xffff_ffff { None } else { Some((v as u32, q)) },
        None => None,
    }
}

fn step_60(s: &str, p: usize) -> (q: Option<usize>)
    requires
        at_piece_of(s@, p as int, 60),
    ensures
        q matches Some(q) ==> at_piece_of(s@, q as int, 61),
        q is None ==> no_record(s@),
{
    let len = s.unicode_len();
    let q = expect_at(s, p, ",");
    proof {
        assert forall|r: DecisionRecord| #[trigger] record_json(r) == s@ implies q == Some((p + ","@.len()) as usize)
            && p + ","@.len() == offset(record_pieces(r), 61) by {
            lemma_at_piece(s@, r, 60);
            lemma_piece_60(r);
        }
    }
    q
}

fn step_61(s: &str, p: usize) -> (q: Option<usize>)
    requires
        at_piece_of(s@, p as int, 61),
    ensures
        q matches Some(q) ==> at_piece_of(s@, q as int, 62),
        q is None ==> no_record(s@),
{
    let len = s.unicode_len();
    let q = expect_at(s, p, "\"vetoed\":");
    proof {
        assert forall|r: DecisionRecord| #[trigger] record_json(r) == s@ implies q == Some((p + "\"vetoed\":"@.len()) as usize)
            && p + "\"vetoed\":"@.len() == offset(record_pieces(r), 62) by {
            lemma_at_piece(s@, r, 61);
            lemma_piece_61(r);
        }
    }
    q
}

fn step_62(s: &str, p: usize) -> (res: Option<(bool, usize)>)
    requires
        at_piece_of(s@, p as int, 62),
    ensures
        res matches Some((v, q)) ==> at_piece_of(s@, q as int, 63)
            && forall|r: DecisionRecord| #[trigger] record_json(r) == s@ ==> v == r.vetoed,
        res is None ==> no_record(s@),
{
    let len = s.unicode_len();
    let t = expect_at(s, p, "true");
    let f = expect_at(s, p, "false");
    let res = match t {
        Some(q) => Some((true, q)),
        None => match f {
            Some(q) => Some((false, q)),
            None => None,
        },
    };
    proof {
        assert forall|r: DecisionRecord| #[trigger] record_json(r) == s@ implies (res matches Some((v, q)) && v == r.vetoed
            && q == offset(record_pieces(r), 63)) by {
            lemma_at_piece(s@, r, 62);
            lemma_piece_62(r);
            reveal_strlit("true");
            reveal_strlit("false");
            if !r.vetoed {
                assert(!at(s@, p as int, "true"@)) by {
                    assert(s@[p as int] == "false"@[0]);
                }
            }
        }
    }
    res
}

fn step_63(s: &str, p: usize) -> (q: Option<usize>)
    requires
        at_piece_of(s@, p as int, 63),
    ensures
        q matches Some(q) ==> at_piece_of(s@, q as int, 64),
        q is None ==> no_record(s@),
{
    let len = s.unicode_len();
    let q = expect_at(s, p, ",");
    proof {
        assert forall|r: DecisionRecord| #[trigger] record_json(r) == s@ implies q == Some((p + ","@.len()) as usize)
            && p + ","@.len() == offset(record_pieces(r), 64) by {
            lemma_at_piece(s@, r, 63);
            lemma_piece_63(r);
        }
    }
    q
}

fn step_64(s: &str, p: usize) -> (q: Option<usize>)
    requires
        at_piece_of(s@, p as int, 64),
    ensures
        q matches Some(q) ==> at_piece_of(s@, q as int, 65),
        q is None ==> no_record(s@),
{
    let len = s.unicode_len();
    let q = expect_at(s, p, "\"veto_reason\":");
    proof {
        assert forall|r: DecisionRecord| #[trigger] record_json(r) == s@ implies q == Some((p + "\"veto_reason\":"@.len()) as usize)
            && p + "\"veto_reason\":"@.len() == offset(record_pieces(r), 65) by {
            lemma_at_piece(s@, r, 64);
            lemma_piece_64(r);
        }
    }
    q
}

fn step_65(s: &str, p: usize) -> (res: Option<(Option<VetoReason>, usize)>)
    requires
        at_piece_of(s@, p as int, 65),
    ensures
        res matches Some((v, q)) ==> at_piece_of(s@, q as int, 66)
            && forall|r: DecisionRecord| #[trigger] record_json(r) == s@ ==> v == r.veto_reason,
        res is None ==> no_record(s@),
{
    let len = s.unicode_len();
    let res = match expect_at(s, p, "null") {
        Some(q) => Some((None, q)),
        None => match parse_json_string(s, p) {
            Some((t, q)) => match parse_veto_label(t.as_str()) {
                Some(v) => Some((Some(v), q)),
                None => None,
            },
            None => None,
        },
    };
    proof {
        assert forall|r: DecisionRecord| #[trigger] record_json(r) == s@ implies (res matches Some((v, q)) && v == r.veto_reason
            && q == offset(record_pieces(r), 66)) by {
            lemma_at_piece(s@, r, 65);
            lemma_piece_65(r);
            reveal_strlit("null");
            if r.veto_reason is Some {
                let v = r.veto_reason->Some_0;
                lemma_veto_label(v);
                assert(!at(s@, p as int, "null"@)) by {
                    assert(s@[p as int] == json_string(v.label())[0]);
                }
                assert(string_at(s@, p as int, v.label()));
            }
        }
    }
    res
}

fn step_66(s: &str, p: usize) -> (q: Option<usize>)
    requires
        at_piece_of(s@, p as int, 66),
    ensures
        q matches Some(q) ==> at_piece_of(s@, q as int, 67),
        q is None ==> no_record(s@),
{
    let len = s.unicode_len();
    let q = expect_at(s, p, ",");
    proof {
        assert forall|r: DecisionRecord| #[trigger] record_json(r) == s@ implies q == Some((p + ","@.len()) as usize)
            && p + ","@.len() == offset(record_pieces(r), 67) by {
            lemma_at_piece(s@, r, 66);
            lemma_piece_66(r);
        }
    }
    q
}

fn step_67(s: &str, p: usize) -> (q: Option<usize>)
    requires
        at_piece_of(s@, p as int, 67),
    ensures
        q matches Some(q) ==> at_piece_of(s@, q as int, 68),
        q is None ==> no_record(s@),
{
    let len = s.unicode_len();
    let q = expect_at(s, p, "\"guard_status\":");
    proof {
        assert forall|r: DecisionRecord| #[trigger] record_json(r) == s@ implies q == Some((p + "\"guard_status\":"@.len()) as usize)
            && p + "\"guard_status\":"@.len() == offset(record_pieces(r), 68) by {
            lemma_at_piece(s@, r, 67);
            lemma_piece_67(r);
        }
    }
    q
}

fn step_68(s: &str, p: usize) -> (res: Option<(Option<GuardStatus>, usize)>)
    requires
        at_piece_of(s@, p as int, 68),
    ensures
        res matches Some((v, q)) ==> at_piece_of(s@, q as int, 69)
            && forall|r: DecisionRecord| #[trigger] record_json(r) == s@ ==> v == r.guard_status,
        res is None ==> no_record(s@),
{
    let len = s.unicode_len();
    let res = match expect_at(s, p, "null") {
        Some(q) => Some((None, q)),
        None => match parse_json_string(s, p) {
            Some((t, q)) => match parse_guard_label(t.as_str()) {
                Some(v) => Some((Some(v), q)),
                None => None,
            },
            None => None,
        },
    };
    proof {
        assert forall|r: DecisionRecord| #[trigger] record_json(r) == s@ implies (res matches Some((v, q)) && v == r.guard_status
            && q == offset(record_pieces(r), 69)) by {
            lemma_at_piece(s@, r, 68);
            lemma_piece_68(r);
            reveal_strlit("null");
            if r.guard_status is Some {
                let v = r.guard_status->Some_0;
                lemma_guard_label(v);
                assert(!at(s@, p as int, "null"@)) by {
                    assert(s@[p as int] == json_string(v.label())[0]);
                }
                assert(string_at(s@, p as int, v.label()));
            }
        }
    }
    res
}

fn step_69(s: &str, p: usize) -> (q: Option<usize>)
    requires
        at_piece_of(s@, p as int, 69),
    ensures
        q matches Some(q) ==> at_piece_of(s@, q as int, 70),
        q is None ==> no_record(s@),
{
    let len = s.unicode_len();
    let q = expect_at(s, p, ",");
    proof {
        assert forall|r: DecisionRecord| #[trigger] record_json(r) == s@ implies q == Some((p + ","@.len()) as usize)
            && p + ","@.len() == offset(record_pieces(r), 70) by {
            lemma_at_piece(s@, r, 69);
            lemma_piece_69(r);
        }
    }
    q
}

fn step_70(s: &str, p: usize) -> (q: Option<usize>)
    requires
        at_piece_of(s@, p as int, 70),
    ensures
        q matches Some(q) ==> at_piece_of(s@, q as int, 71),
        q is None ==> no_record(s@),
{
    let len = s.unicode_len();
    let q = expect_at(s, p, "\"summary\":");
    proof {
        assert forall|r: DecisionRecord| #[trigger] record_json(r) == s@ implies q == Some((p + "\"summary\":"@.len()) as usize)
            && p + "\"summary\":"@.len() == offset(record_pieces(r), 71) by {
            lemma_at_piece(s@, r, 70);
            lemma_piece_70(r);
        }
    }
    q
}

fn step_71(s: &str, p: usize) -> (res: Option<(String, usize)>)
    requires
        at_piece_of(s@, p as int, 71),
    ensures
        res matches Some((v, q)) ==> at_piece_of(s@, q as int, 72)
            && forall|r: DecisionRecord| #[trigger] record_json(r) == s@ ==> v@ == r.summary@,
        res is None ==> no_record(s@),
{
    let len = s.unicode_len();
    let res = parse_json_string(s, p);
    proof {
        assert forall|r: DecisionRecord| #[trigger] record_json(r) == s@ implies (res matches Some((v, q)) && v@ == r.summary@
            && q == p + json_string(r.summary@).len() && q == offset(record_pieces(r), 72)) by {
            lemma_at_piece(s@, r, 71);
            lemma_piece_71(r);
            assert(string_at(s@, p as int, r.summary@));
        }
    }
    res
}

fn step_72(s: &str, p: usize) -> (q: Option<usize>)
    requires
        at_piece_of(s@, p as int, 72),
    ensures
        q matches Some(q) ==> at_piece_of(s@, q as int, 73),
        q is None ==> no_record(s@),
{
    let len = s.unicode_len();
    let q = expect_at(s, p, "}");
    proof {
        assert forall|r: DecisionRecord| #[trigger] record_json(r) == s@ implies q == Some((p + "}"@.len()) as usize)
            && p + "}"@.len() == offset(record_pieces(r), 73) by {
            lemma_at_piece(s@, r, 72);
            lemma_piece_72(r);
        }
    }
    q
}

fn action_token(t: &String) -> (r: Option<ActionRecord>)
    ensures
        forall|a: ActionRecord| t@ == a.label() ==> r == Some(a),
{
    proof {
        assert forall|a: ActionRecord| t@ == a.label() implies ActionRecord::parse_spec(t@) == Some(a) by {
            crate::decision_record::lemma_tokens_round_trip(PolicyMode::Live, a);
        }
    }
    ActionRecord::parse(t.as_str())
}

fn mode_token(t: &String) -> (r: Option<PolicyMode>)
    ensures
        forall|m: PolicyMode| t@ == m.label() ==> r == Some(m),
{
    proof {
        assert forall|m: PolicyMode| t@ == m.label() implies PolicyMode::parse_spec(t@) == Some(m) by {
            crate::decision_record::lemma_tokens_round_trip(m, ActionRecord::Keep);
        }
    }
    PolicyMode::parse(t.as_str())
}

/// Whether `a` and `b` hold the same record (strings compared by content).
pub open spec fn same_record(a: DecisionRecord, b: DecisionRecord) -> bool {
    &&& a.decision_id == b.decision_id && a.timestamp_secs == b.timestamp_secs && a.path@ == b.path@
    &&& a.size_bytes == b.size_bytes && a.age_secs == b.age_secs && a.action == b.action
    &&& a.effective_action == b.effective_action && a.policy_mode == b.policy_mode && a.factors == b.factors
    &&& a.total_score == b.total_score && a.posterior_abandoned == b.posterior_abandoned
    &&& a.expected_loss_keep == b.expected_loss_keep && a.expected_loss_delete == b.expected_loss_delete
    &&& a.calibration_score == b.calibration_score && a.vetoed == b.vetoed && a.veto_reason == b.veto_reason
    &&& a.guard_status == b.guard_status && a.summary@ == b.summary@
}

impl DecisionRecord {
    /// Reads back the compact JSON form of a record: the text of any record
    /// reads back as that record.
    pub fn from_json(s: &str) -> (res: Option<DecisionRecord>)
        ensures
            forall|r: DecisionRecord| #[trigger] record_json(r) == s@ ==> (res matches Some(d) && same_record(d, r)),
    {
        let p0: usize = 0;
        proof {
            assert forall|r: DecisionRecord| #[trigger] record_json(r) == s@ implies p0 == offset(record_pieces(r), 0) by {
                lemma_at_piece(s@, r, 0);
            }
        }
        let p1 = match step_0(s, p0) { Some(q) => q, None => { return None; } };
        let p2 = match step_1(s, p1) { Some(q) => q, None => { return None; } };
        let (v2, p3) = match step_2(s, p2) { Some(x) => x, None => { return None; } };
        let p4 = match step_3(s, p3) { Some(q) => q, None => { return None; } };
        let p5 = match step_4(s, p4) { Some(q) => q, None => { return None; } };
        let (v5, p6) = match step_5(s, p5) { Some(x) => x, None => { return None; } };
        let p7 = match step_6(s, p6) { Some(q) => q, None => { return None; } };
        let p8 = match step_7(s, p7) { Some(q) => q, None => { return None; } };
        let (t8, p9) = match step_8(s, p8) { Some(x) => x, None => { return None; } };
        let p10 = match step_9(s, p9) { Some(q) => q, None => { return None; } };
        let p11 = match step_10(s, p10) { Some(q) => q, None => { return None; } };
        let (v11, p12) = match step_11(s, p11) { Some(x) => x, None => { return None; } };
        let p13 = match step_12(s, p12) { Some(q) => q, None => { return None; } };
        let p14 = match step_13(s, p13) { Some(q) => q, None => { return None; } };
        let (v14, p15) = match step_14(s, p14) { Some(x) => x, None => { return None; } };
        let p16 = match step_15(s, p15) { Some(q) => q, None => { return None; } };
        let p17 = match step_16(s, p16) { Some(q) => q, None => { return None; } };
        let (t17, p18) = match step_17(s, p17) { Some(x) => x, None => { return None; } };
        let x17 = match action_token(&t17) { Some(x) => x, None => { return None; } };
        let p19 = match step_18(s, p18) { Some(q) => q, None => { return None; } };
        let p20 = match step_19(s, p19) { Some(q) => q, None => { return None; } };
        let (t20, p21) = match step_20(s, p20) { Some(x) => x, None => { return None; } };
        let x20 = match action_token(&t20) { Some(x) => x, None => { return None; } };
        let p22 = match step_21(s, p21) { Some(q) => q, None => { return None; } };
        let p23 = match step_22(s, p22) { Some(q) => q, None => { return None; } };
        let (t23, p24) = match step_23(s, p23) { Some(x) => x, None => { return None; } };
        let x23 = match mode_token(&t23) { Some(x) => x, None => { return None; } };
        let p25 = match step_24(s, p24) { Some(q) => q, None => { return None; } };
        let p26 = match step_25(s, p25) { Some(q) => q, None => { return None; } };
        let p27 = match step_26(s, p26) { Some(q) => q, None => { return None; } };
        let p28 = match step_27(s, p27) { Some(q) => q, None => { return None; } };
        let (v28, p29) = match step_28(s, p28) { Some(x) => x, None => { return None; } };
        let p30 = match step_29(s, p29) { Some(q) => q, None => { return None; } };
        let p31 = match step_30(s, p30) { Some(q) => q, None => { return None; } };
        let (v31, p32) = match step_31(s, p31) { Some(x) => x, None => { return None; } };
        let p33 = match step_32(s, p32) { Some(q) => q, None => { return None; } };
        let p34 = match step_33(s, p33) { Some(q) => q, None => { return None; } };
        let (v34, p35) = match step_34(s, p34) { Some(x) => x, None => { return None; } };
        let p36 = match step_35(s, p35) { Some(q) => q, None => { return None; } };
        let p37 = match step_36(s, p36) { Some(q) => q, None => { return None; } };
        let (v37, p38) = match step_37(s, p37) { Some(x) => x, None => { return None; } };
        let p39 = match step_38(s, p38) { Some(q) => q, None => { return None; } };
        let p40 = match step_39(s, p39) { Some(q) => q, None => { return None; } };
        let (v40, p41) = match step_40(s, p40) { Some(x) => x, None => { return None; } };
        let p42 = match step_41(s, p41) { Some(q) => q, None => { return None; } };
        let p43 = match step_42(s, p42) { Some(q) => q, None => { return None; } };
        let (v43, p44) = match step_43(s, p43) { Some(x) => x, None => { return None; } };
        let p45 = match step_44(s, p44) { Some(q) => q, None => { return None; } };
        let p46 = match step_45(s, p45) { Some(q) => q, None => { return None; } };
        let p47 = match step_46(s, p46) { Some(q) => q, None => { return None; } };
        let (v47, p48) = match step_47(s, p47) { Some(x) => x, None => { return None; } };
        let p49 = match step_48(s, p48) { Some(q) => q, None => { return None; } };
        let p50 = match step_49(s, p49) { Some(q) => q, None => { return None; } };
        let (v50, p51) = match step_50(s, p50) { Some(x) => x, None => { return None; } };
        let p52 = match step_51(s, p51) { Some(q) => q, None => { return None; } };
        let p53 = match step_52(s, p52) { Some(q) => q, None => { return None; } };
        let (v53, p54) = match step_53(s, p53) { Some(x) => x, None => { return None; } };
        let p55 = match step_54(s, p54) { Some(q) => q, None => { return None; } };
        let p56 = match step_55(s, p55) { Some(q) => q, None => { return None; } };
        let (v56, p57) = match step_56(s, p56) { Some(x) => x, None => { return None; } };
        let p58 = match step_57(s, p57) { Some(q) => q, None => { return None; } };
        let p59 = match step_58(s, p58) { Some(q) => q, None => { return None; } };
        let (v59, p60) = match step_59(s, p59) { Some(x) => x, None => { return None; } };
        let p61 = match step_60(s, p60) { Some(q) => q, None => { return None; } };
        let p62 = match step_61(s, p61) { Some(q) => q, None => { return None; } };
        let (b62, p63) = match step_62(s, p62) { Some(x) => x, None => { return None; } };
        let p64 = match step_63(s, p63) { Some(q) => q, None => { return None; } };
        let p65 = match step_64(s, p64) { Some(q) => q, None => { return None; } };
        let (o65, p66) = match step_65(s, p65) { Some(x) => x, None => { return None; } };
        let p67 = match step_66(s, p66) { Some(q) => q, None => { return None; } };
        let p68 = match step_67(s, p67) { Some(q) => q, None => { return None; } };
        let (o68, p69) = match step_68(s, p68) { Some(x) => x, None => { return None; } };
        let p70 = match step_69(s, p69) { Some(q) => q, None => { return None; } };
        let p71 = match step_70(s, p70) { Some(q) => q, None => { return None; } };
        let (t71, p72) = match step_71(s, p71) { Some(x) => x, None => { return None; } };
        let p73 = match step_72(s, p72) { Some(q) => q, None => { return None; } };
        let d = DecisionRecord {
            decision_id: v2,
            timestamp_secs: v5,
            path: t8,
            size_bytes: v11,
            age_secs: v14,
            action: x17,
            effective_action: x20,
            policy_mode: x23,
            factors: ScoreFactors {
                location: v28,
                name: v31,
                age: v34,
                size: v37,
                structure: v40,
                pressure_multiplier: v43,
            },
            total_score: v47,
            posterior_abandoned: v50,
            expected_loss_keep: v53,
            expected_loss_delete: v56,
            calibration_score: v59,
            vetoed: b62,
            veto_reason: o65,
            guard_status: o68,
            summary: t71,
        };
        Some(d)
    }
}

} // verus!
