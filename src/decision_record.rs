//! Immutable, explainable audit records of scoring and policy decisions.

use vstd::prelude::*;
use crate::guardrails::GuardStatus;
use crate::scoring::{CandidacyScore, DecisionAction, ScoreFactors, VetoReason};
use crate::text::{decimal, digit_str, push_decimal, str_eq};

verus! {

/// How a decision was applied.
#[derive(Debug, Clone, Copy, PartialEq, Eq, Structural, Hash)]
pub enum PolicyMode {
    Live,
    Shadow,
    Canary,
    DryRun,
}

/// The action as recorded.
#[derive(Debug, Clone, Copy, PartialEq, Eq, Structural, Hash)]
pub enum ActionRecord {
    Keep,
    Delete,
    Review,
}

/// Verbosity of an explanation.
#[derive(Debug, Clone, Copy, PartialEq, Eq, Structural, Hash)]
pub enum ExplainLevel {
    L0,
    L1,
    L2,
    L3,
}

impl PolicyMode {
    pub open spec fn label(self) -> Seq<char> {
        match self {
            PolicyMode::Live => "live"@,
            PolicyMode::Shadow => "shadow"@,
            PolicyMode::Canary => "canary"@,
            PolicyMode::DryRun => "dry_run"@,
        }
    }

    pub open spec fn parse_spec(s: Seq<char>) -> Option<PolicyMode> {
        if s == "live"@ {
            Some(PolicyMode::Live)
        } else if s == "shadow"@ {
            Some(PolicyMode::Shadow)
        } else if s == "canary"@ {
            Some(PolicyMode::Canary)
        } else if s == "dry_run"@ {
            Some(PolicyMode::DryRun)
        } else {
            None
        }
    }

    /// Serialized token.
    pub fn as_str(self) -> (r: &'static str)
        ensures
            r@ == self.label(),
    {
        match self {
            PolicyMode::Live => "live",
            PolicyMode::Shadow => "shadow",
            PolicyMode::Canary => "canary",
            PolicyMode::DryRun => "dry_run",
        }
    }

    /// Reads a serialized token back.
    pub fn parse(s: &str) -> (r: Option<PolicyMode>)
        ensures
            r == PolicyMode::parse_spec(s@),
    {
        if str_eq(s, "live") {
            Some(PolicyMode::Live)
        } else if str_eq(s, "shadow") {
            Some(PolicyMode::Shadow)
        } else if str_eq(s, "canary") {
            Some(PolicyMode::Canary)
        } else if str_eq(s, "dry_run") {
            Some(PolicyMode::DryRun)
        } else {
            None
        }
    }
}

impl ActionRecord {
    pub open spec fn label(self) -> Seq<char> {
        match self {
            ActionRecord::Keep => "keep"@,
            ActionRecord::Delete => "delete"@,
            ActionRecord::Review => "review"@,
        }
    }

    /// The human-readable token used in explanations.
    pub open spec fn token(self) -> Seq<char> {
        match self {
            ActionRecord::Keep => "KEEP"@,
            ActionRecord::Delete => "DELETE"@,
            ActionRecord::Review => "REVIEW"@,
        }
    }

    pub open spec fn parse_spec(s: Seq<char>) -> Option<ActionRecord> {
        if s == "keep"@ {
            Some(ActionRecord::Keep)
        } else if s == "delete"@ {
            Some(ActionRecord::Delete)
        } else if s == "review"@ {
            Some(ActionRecord::Review)
        } else {
            None
        }
    }

    pub open spec fn from_action_spec(a: DecisionAction) -> ActionRecord {
        match a {
            DecisionAction::Keep => ActionRecord::Keep,
            DecisionAction::Delete => ActionRecord::Delete,
            DecisionAction::Defer => ActionRecord::Review,
        }
    }

    pub fn from_action(a: DecisionAction) -> (r: ActionRecord)
        ensures
            r == ActionRecord::from_action_spec(a),
    {
        match a {
            DecisionAction::Keep => ActionRecord::Keep,
            DecisionAction::Delete => ActionRecord::Delete,
            DecisionAction::Defer => ActionRecord::Review,
        }
    }

    /// Serialized token.
    pub fn as_str(self) -> (r: &'static str)
        ensures
            r@ == self.label(),
    {
        match self {
            ActionRecord::Keep => "keep",
            ActionRecord::Delete => "delete",
            ActionRecord::Review => "review",
        }
    }

    /// Explanation token.
    pub fn token_str(self) -> (r: &'static str)
        ensures
            r@ == self.token(),
    {
        match self {
            ActionRecord::Keep => "KEEP",
            ActionRecord::Delete => "DELETE",
            ActionRecord::Review => "REVIEW",
        }
    }

    /// Reads a serialized token back.
    pub fn parse(s: &str) -> (r: Option<ActionRecord>)
        ensures
            r == ActionRecord::parse_spec(s@),
    {
        if str_eq(s, "keep") {
            Some(ActionRecord::Keep)
        } else if str_eq(s, "delete") {
            Some(ActionRecord::Delete)
        } else if str_eq(s, "review") {
            Some(ActionRecord::Review)
        } else {
            None
        }
    }
}

/// Serialized mode and action tokens read back as the same values, for
/// every mode and every action.
pub proof fn lemma_tokens_round_trip(m: PolicyMode, a: ActionRecord)
    ensures
        PolicyMode::parse_spec(m.label()) == Some(m),
        ActionRecord::parse_spec(a.label()) == Some(a),
{
    reveal_strlit("live");
    reveal_strlit("shadow");
    reveal_strlit("canary");
    reveal_strlit("dry_run");
    reveal_strlit("keep");
    reveal_strlit("delete");
    reveal_strlit("review");
    assert("live"@[0] == 'l' && "shadow"@[0] == 's' && "canary"@[0] == 'c' && "dry_run"@[0] == 'd');
    assert("keep"@[0] == 'k' && "delete"@[0] == 'd' && "review"@[0] == 'r');
}

/// One audit row.
#[derive(Debug, Clone, PartialEq, Eq)]
pub struct DecisionRecord {
    pub decision_id: u64,
    pub timestamp_secs: u64,
    pub path: String,
    pub size_bytes: u64,
    pub age_secs: u64,
    pub action: ActionRecord,
    pub effective_action: ActionRecord,
    pub policy_mode: PolicyMode,
    pub factors: ScoreFactors,
    pub total_score: u32,
    pub posterior_abandoned: u32,
    pub expected_loss_keep: u64,
    pub expected_loss_delete: u64,
    pub calibration_score: u32,
    pub vetoed: bool,
    pub veto_reason: Option<VetoReason>,
    pub guard_status: Option<GuardStatus>,
    pub summary: String,
}

pub open spec fn explain_l0(r: DecisionRecord) -> Seq<char> {
    r.action.token() + " "@ + r.path@
}

pub open spec fn explain_l1(r: DecisionRecord) -> Seq<char> {
    explain_l0(r) + " score="@ + decimal(r.total_score as nat)
}

pub open spec fn explain_l2(r: DecisionRecord) -> Seq<char> {
    explain_l1(r) + " posterior="@ + decimal(r.posterior_abandoned as nat) + " loss_keep="@
        + decimal(r.expected_loss_keep as nat) + " loss_delete="@ + decimal(r.expected_loss_delete as nat)
}

pub open spec fn explain_l3(r: DecisionRecord) -> Seq<char> {
    explain_l2(r) + " mode="@ + r.policy_mode.label() + " effective="@ + r.effective_action.token()
        + " summary="@ + r.summary@
}

pub open spec fn explain_spec(r: DecisionRecord, level: ExplainLevel) -> Seq<char> {
    match level {
        ExplainLevel::L0 => explain_l0(r),
        ExplainLevel::L1 => explain_l1(r),
        ExplainLevel::L2 => explain_l2(r),
        ExplainLevel::L3 => explain_l3(r),
    }
}

/// Renders a record at the given level of detail.
pub fn format_explain(r: &DecisionRecord, level: ExplainLevel) -> (s: String)
    ensures
        s@ == explain_spec(*r, level),
{
    let mut s = String::from_str(r.action.token_str());
    s.append(" ");
    s.append(r.path.as_str());
    if level == ExplainLevel::L0 {
        return s;
    }
    s.append(" score=");
    push_decimal(&mut s, r.total_score as u64);
    if level == ExplainLevel::L1 {
        return s;
    }
    s.append(" posterior=");
    push_decimal(&mut s, r.posterior_abandoned as u64);
    s.append(" loss_keep=");
    push_decimal(&mut s, r.expected_loss_keep);
    s.append(" loss_delete=");
    push_decimal(&mut s, r.expected_loss_delete);
    if level == ExplainLevel::L2 {
        return s;
    }
    s.append(" mode=");
    s.append(r.policy_mode.as_str());
    s.append(" effective=");
    s.append(r.effective_action.token_str());
    s.append(" summary=");
    s.append(r.summary.as_str());
    s
}

/// Explanations grow strictly with the level, each level extends the one
/// below it, and the most detailed one begins with the action token.
pub proof fn lemma_explain_levels_cumulative(r: DecisionRecord)
    ensures
        explain_l0(r).len() < explain_l1(r).len(),
        explain_l1(r).len() < explain_l2(r).len(),
        explain_l2(r).len() < explain_l3(r).len(),
        has_prefix_of(explain_l3(r), explain_l0(r)),
        has_prefix_of(explain_l3(r), r.action.token()),
{
    reveal_strlit(" score=");
    reveal_strlit(" posterior=");
    reveal_strlit(" mode=");
    let l0 = explain_l0(r);
    let l3 = explain_l3(r);
    assert(l3.subrange(0, l0.len() as int) =~= l0);
    assert(l3.subrange(0, r.action.token().len() as int) =~= r.action.token());
}

pub open spec fn has_prefix_of(s: Seq<char>, p: Seq<char>) -> bool {
    crate::text::has_prefix(s, p)
}

/// Hands out records with increasing identifiers.
#[derive(Debug, Clone, Copy, PartialEq, Eq)]
pub struct DecisionRecordBuilder {
    pub next_id: u64,
}

impl DecisionRecordBuilder {
    pub fn new() -> (r: Self)
        ensures
            r.next_id == 1,
    {
        DecisionRecordBuilder { next_id: 1 }
    }

    /// Builds the record of a scored candidate under a policy mode. The
    /// effective action is the recommended one; the policy engine overrides
    /// it when it does not approve a deletion.
    pub fn build(
        &mut self,
        c: &CandidacyScore,
        mode: PolicyMode,
        guard: Option<GuardStatus>,
        timestamp_secs: Option<u64>,
    ) -> (r: DecisionRecord)
        ensures
            r.decision_id == old(self).next_id,
            final(self).next_id == if old(self).next_id == u64::MAX { u64::MAX } else { (old(self).next_id + 1) as u64 },
            r.path == c.path,
            r.size_bytes == c.size_bytes,
            r.age_secs == c.age_secs,
            r.action == ActionRecord::from_action_spec(c.decision.action),
            r.effective_action == r.action,
            r.policy_mode == mode,
            r.factors == c.factors,
            r.total_score == c.total_score,
            r.posterior_abandoned == c.decision.posterior_abandoned,
            r.expected_loss_keep == c.decision.expected_loss_keep,
            r.expected_loss_delete == c.decision.expected_loss_delete,
            r.calibration_score == c.decision.calibration_score,
            r.vetoed == c.vetoed,
            r.veto_reason == c.veto_reason,
            r.guard_status == guard,
            r.timestamp_secs == match timestamp_secs { Some(t) => t, None => 0 },
    {
        let id = self.next_id;
        if self.next_id < u64::MAX {
            self.next_id = self.next_id + 1;
        }
        let action = ActionRecord::from_action(c.decision.action);
        let mut summary = String::from_str(action.token_str());
        summary.append(" score=");
        push_decimal(&mut summary, c.total_score as u64);
        if c.vetoed {
            summary.append(" vetoed");
        }
        DecisionRecord {
            decision_id: id,
            timestamp_secs: match timestamp_secs { Some(t) => t, None => 0 },
            path: c.path.clone(),
            size_bytes: c.size_bytes,
            age_secs: c.age_secs,
            action,
            effective_action: action,
            policy_mode: mode,
            factors: c.factors,
            total_score: c.total_score,
            posterior_abandoned: c.decision.posterior_abandoned,
            expected_loss_keep: c.decision.expected_loss_keep,
            expected_loss_delete: c.decision.expected_loss_delete,
            calibration_score: c.decision.calibration_score,
            vetoed: c.vetoed,
            veto_reason: c.veto_reason,
            guard_status: guard,
            summary,
        }
    }
}

pub open spec fn hex_char(d: int) -> char {
    if d < 10 { crate::text::digit_char(d) } else if d == 10 { 'a' } else if d == 11 { 'b' }
    else if d == 12 { 'c' } else if d == 13 { 'd' } else if d == 14 { 'e' } else { 'f' }
}

/// JSON escape of one character: quote, backslash and control characters
/// are escaped, everything else stands as it is.
pub open spec fn json_escape_char(c: char) -> Seq<char> {
    if c == '"' {
        seq!['\\', '"']
    } else if c == '\\' {
        seq!['\\', '\\']
    } else if c == '\n' {
        seq!['\\', 'n']
    } else if c == '\r' {
        seq!['\\', 'r']
    } else if c == '\t' {
        seq!['\\', 't']
    } else if (c as u32) < 0x20 {
        seq!['\\', 'u', '0', '0', hex_char((c as u32) as int / 16), hex_char((c as u32) as int % 16)]
    } else {
        seq![c]
    }
}

pub open spec fn json_escape(s: Seq<char>) -> Seq<char>
    decreases s.len(),
{
    if s.len() == 0 { s } else { json_escape(s.drop_last()) + json_escape_char(s.last()) }
}

/// A JSON string literal.
pub open spec fn json_string(s: Seq<char>) -> Seq<char> {
    seq!['"'] + json_escape(s) + seq!['"']
}

fn hex_str(d: u32) -> (r: &'static str)
    requires
        d < 16,
    ensures
        r@ == seq![hex_char(d as int)],
{
    if d < 10 {
        digit_str(d as u64)
    } else {
        proof {
            reveal_strlit("a");
            reveal_strlit("b");
            reveal_strlit("c");
            reveal_strlit("d");
            reveal_strlit("e");
            reveal_strlit("f");
        }
        if d == 10 { "a" } else if d == 11 { "b" } else if d == 12 { "c" } else if d == 13 { "d" }
        else if d == 14 { "e" } else { "f" }
    }
}

fn push_escaped_char(out: &mut String, s: &str, i: usize)
    requires
        i < s@.len(),
        s@.len() <= usize::MAX,
    ensures
        final(out)@ == old(out)@ + json_escape_char(s@[i as int]),
{
    let c = s.get_char(i);
    proof {
        reveal_strlit("\\\"");
        reveal_strlit("\\\\");
        reveal_strlit("\\n");
        reveal_strlit("\\r");
        reveal_strlit("\\t");
        reveal_strlit("\\u00");
    }
    if c == '"' {
        out.append("\\\"");
    } else if c == '\\' {
        out.append("\\\\");
    } else if c == '\n' {
        out.append("\\n");
    } else if c == '\r' {
        out.append("\\r");
    } else if c == '\t' {
        out.append("\\t");
    } else if (c as u32) < 0x20 {
        out.append("\\u00");
        out.append(hex_str((c as u32) / 16));
        out.append(hex_str((c as u32) % 16));
        proof {
            assert(out@ =~= old(out)@ + json_escape_char(c));
        }
    } else {
        out.append(s.substring_char(i, i + 1));
        proof {
            assert(s@.subrange(i as int, i + 1) =~= seq![c]);
        }
    }
}

/// Appends `s` as a JSON string literal.
pub fn push_json_string(out: &mut String, s: &str)
    ensures
        final(out)@ == old(out)@ + json_string(s@),
{
    proof {
        reveal_strlit("\"");
    }
    out.append("\"");
    let n = s.unicode_len();
    let mut i: usize = 0;
    let ghost start = out@;
    proof {
        assert(s@.subrange(0, 0) =~= Seq::<char>::empty());
        assert(start + json_escape(Seq::<char>::empty()) =~= start);
    }
    while i < n
        invariant
            n == s@.len(),
            n <= usize::MAX,
            i <= n,
            out@ == start + json_escape(s@.subrange(0, i as int)),
        decreases n - i,
    {
        push_escaped_char(out, s, i);
        proof {
            let pre = s@.subrange(0, i as int + 1);
            assert(pre.drop_last() =~= s@.subrange(0, i as int));
            assert(out@ =~= start + json_escape(pre));
        }
        i = i + 1;
    }
    out.append("\"");
    proof {
        assert(s@.subrange(0, n as int) =~= s@);
        assert(out@ =~= old(out)@ + json_string(s@));
    }
}

pub open spec fn num_field(key: Seq<char>, n: nat) -> Seq<char> {
    seq!['"'] + key + seq!['"', ':'] + decimal(n)
}

pub open spec fn token_field(key: Seq<char>, t: Seq<char>) -> Seq<char> {
    seq!['"'] + key + seq!['"', ':', '"'] + t + seq!['"']
}

pub open spec fn opt_token_field(key: Seq<char>, t: Option<Seq<char>>) -> Seq<char> {
    match t {
        Some(v) => token_field(key, v),
        None => seq!['"'] + key + seq!['"', ':'] + "null"@,
    }
}

pub open spec fn string_field(key: Seq<char>, v: Seq<char>) -> Seq<char> {
    seq!['"'] + key + seq!['"', ':'] + json_string(v)
}

pub open spec fn factors_json(f: ScoreFactors) -> Seq<char> {
    seq!['{'] + num_field("location"@, f.location as nat) + seq![','] + num_field("name"@, f.name as nat)
        + seq![','] + num_field("age"@, f.age as nat) + seq![','] + num_field("size"@, f.size as nat)
        + seq![','] + num_field("structure"@, f.structure as nat) + seq![',']
        + num_field("pressure_multiplier"@, f.pressure_multiplier as nat) + seq!['}']
}

/// Identity, path, size and actions of a record, as JSON members.
pub open spec fn json_head(r: DecisionRecord) -> Seq<char> {
    num_field("decision_id"@, r.decision_id as nat) + seq![','] + num_field("timestamp"@, r.timestamp_secs as nat)
        + seq![','] + string_field("path"@, r.path@) + seq![','] + num_field("size_bytes"@, r.size_bytes as nat)
        + seq![','] + num_field("age_secs"@, r.age_secs as nat) + seq![','] + token_field("action"@, r.action.label())
        + seq![','] + token_field("effective_action"@, r.effective_action.label()) + seq![',']
        + token_field("policy_mode"@, r.policy_mode.label())
}

/// Factors, score, posterior, losses and calibration, as JSON members.
pub open spec fn json_scores(r: DecisionRecord) -> Seq<char> {
    seq!['"'] + "factors"@ + seq!['"', ':'] + factors_json(r.factors) + seq![',']
        + num_field("total_score"@, r.total_score as nat) + seq![',']
        + num_field("posterior_abandoned"@, r.posterior_abandoned as nat) + seq![',']
        + num_field("expected_loss_keep"@, r.expected_loss_keep as nat) + seq![',']
        + num_field("expected_loss_delete"@, r.expected_loss_delete as nat) + seq![',']
        + num_field("calibration_score"@, r.calibration_score as nat)
}

/// Veto, guard status and summary, as JSON members.
pub open spec fn json_tail(r: DecisionRecord) -> Seq<char> {
    seq!['"'] + "vetoed"@ + seq!['"', ':'] + (if r.vetoed { "true"@ } else { "false"@ }) + seq![',']
        + opt_token_field("veto_reason"@, match r.veto_reason { Some(v) => Some(v.label()), None => None })
        + seq![','] + opt_token_field("guard_status"@, match r.guard_status { Some(g) => Some(g.label()), None => None })
        + seq![','] + string_field("summary"@, r.summary@)
}

/// The compact JSON form of a record: one object, keys in declaration order,
/// scores as integers, tokens as strings, absent options as `null`.
#[verifier::opaque]
pub open spec fn record_json(r: DecisionRecord) -> Seq<char> {
    seq!['{'] + json_head(r) + seq![','] + json_scores(r) + seq![','] + json_tail(r) + seq!['}']
}

fn push_key(out: &mut String, key: &str)
    ensures
        final(out)@ == old(out)@ + seq!['"'] + key@ + seq!['"', ':'],
{
    proof {
        reveal_strlit("\"");
        reveal_strlit("\":");
    }
    out.append("\"");
    out.append(key);
    out.append("\":");
    proof {
        assert(out@ =~= old(out)@ + seq!['"'] + key@ + seq!['"', ':']);
    }
}

fn push_num_field(out: &mut String, key: &str, n: u64)
    ensures
        final(out)@ == old(out)@ + num_field(key@, n as nat),
{
    push_key(out, key);
    push_decimal(out, n);
    proof {
        assert(out@ =~= old(out)@ + num_field(key@, n as nat));
    }
}

fn push_token_field(out: &mut String, key: &str, t: &str)
    ensures
        final(out)@ == old(out)@ + token_field(key@, t@),
{
    push_key(out, key);
    proof {
        reveal_strlit("\"");
    }
    out.append("\"");
    out.append(t);
    out.append("\"");
    proof {
        assert(out@ =~= old(out)@ + token_field(key@, t@));
    }
}

fn push_opt_token_field(out: &mut String, key: &str, t: Option<&str>)
    ensures
        final(out)@ == old(out)@ + opt_token_field(key@, match t { Some(v) => Some(v@), None => None }),
{
    match t {
        Some(v) => push_token_field(out, key, v),
        None => {
            push_key(out, key);
            out.append("null");
            proof {
                assert(out@ =~= old(out)@ + opt_token_field(key@, None));
            }
        },
    }
}

fn push_string_field(out: &mut String, key: &str, v: &str)
    ensures
        final(out)@ == old(out)@ + string_field(key@, v@),
{
    push_key(out, key);
    push_json_string(out, v);
    proof {
        assert(out@ =~= old(out)@ + string_field(key@, v@));
    }
}

fn push_comma(out: &mut String)
    ensures
        final(out)@ == old(out)@ + seq![','],
{
    proof {
        reveal_strlit(",");
    }
    out.append(",");
}

fn push_factors(out: &mut String, f: &ScoreFactors)
    ensures
        final(out)@ == old(out)@ + factors_json(*f),
{
    proof {
        reveal_strlit("{");
        reveal_strlit("}");
    }
    out.append("{");
    push_num_field(out, "location", f.location as u64);
    push_comma(out);
    push_num_field(out, "name", f.name as u64);
    push_comma(out);
    push_num_field(out, "age", f.age as u64);
    push_comma(out);
    push_num_field(out, "size", f.size as u64);
    push_comma(out);
    push_num_field(out, "structure", f.structure as u64);
    push_comma(out);
    push_num_field(out, "pressure_multiplier", f.pressure_multiplier as u64);
    out.append("}");
    proof {
        assert(out@ =~= old(out)@ + factors_json(*f));
    }
}

fn push_head(out: &mut String, r: &DecisionRecord)
    ensures
        final(out)@ == old(out)@ + json_head(*r),
{
    push_num_field(out, "decision_id", r.decision_id);
    push_comma(out);
    push_num_field(out, "timestamp", r.timestamp_secs);
    push_comma(out);
    push_string_field(out, "path", r.path.as_str());
    push_comma(out);
    push_num_field(out, "size_bytes", r.size_bytes);
    push_comma(out);
    push_num_field(out, "age_secs", r.age_secs);
    push_comma(out);
    push_token_field(out, "action", r.action.as_str());
    push_comma(out);
    push_token_field(out, "effective_action", r.effective_action.as_str());
    push_comma(out);
    push_token_field(out, "policy_mode", r.policy_mode.as_str());
    proof {
        assert(out@ =~= old(out)@ + json_head(*r));
    }
}

fn push_scores(out: &mut String, r: &DecisionRecord)
    ensures
        final(out)@ == old(out)@ + json_scores(*r),
{
    push_key(out, "factors");
    push_factors(out, &r.factors);
    push_comma(out);
    push_num_field(out, "total_score", r.total_score as u64);
    push_comma(out);
    push_num_field(out, "posterior_abandoned", r.posterior_abandoned as u64);
    push_comma(out);
    push_num_field(out, "expected_loss_keep", r.expected_loss_keep);
    push_comma(out);
    push_num_field(out, "expected_loss_delete", r.expected_loss_delete);
    push_comma(out);
    push_num_field(out, "calibration_score", r.calibration_score as u64);
    proof {
        assert(out@ =~= old(out)@ + json_scores(*r));
    }
}

fn push_tail(out: &mut String, r: &DecisionRecord)
    ensures
        final(out)@ == old(out)@ + json_tail(*r),
{
    push_key(out, "vetoed");
    out.append(if r.vetoed { "true" } else { "false" });
    push_comma(out);
    let vr: Option<&str> = match r.veto_reason {
        Some(v) => Some(v.as_str()),
        None => None,
    };
    push_opt_token_field(out, "veto_reason", vr);
    push_comma(out);
    let gs: Option<&str> = match r.guard_status {
        Some(g) => Some(g.as_str()),
        None => None,
    };
    push_opt_token_field(out, "guard_status", gs);
    push_comma(out);
    push_string_field(out, "summary", r.summary.as_str());
    proof {
        assert(out@ =~= old(out)@ + json_tail(*r));
    }
}

impl DecisionRecord {
    /// Compact JSON of the record.
    pub fn to_json_compact(&self) -> (r: String)
        ensures
            r@ == record_json(*self),
    {
        proof {
            reveal_strlit("{");
            reveal_strlit("}");
        }
        let mut out = String::from_str("{");
        push_head(&mut out, self);
        push_comma(&mut out);
        push_scores(&mut out, self);
        push_comma(&mut out);
        push_tail(&mut out, self);
        out.append("}");
        proof {
            reveal(record_json);
            assert(out@ =~= record_json(*self));
        }
        out
    }
}

} // verus!
