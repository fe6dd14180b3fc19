//! The observability export adapter.
//!
//! Metric events are routed to counters and histograms tagged with the
//! string attributes present on the event.  This module holds everything
//! that can be decided from the event and the configuration alone: which
//! instrument receives which amount, which attributes tag it, how the
//! exporter must be set up, and the startup/shutdown lifecycle of the
//! export handle.  Actually building the wire exporter and feeding the
//! instruments is transport work left to the surrounding program.

use vstd::prelude::*;

use crate::events::{
    FieldValue, MetricEvent, MetricEventId, SparseRecord, event_id_spec, event_id_from_code,
    ATTR_AUTHOR, ATTR_BASE_COMMIT_SHA, ATTR_BRANCH, ATTR_COMMIT_SHA, ATTR_MODEL, ATTR_PROMPT_ID,
    ATTR_REPO_URL, ATTR_TOOL, CHECKPOINT_LINES_ADDED, CHECKPOINT_LINES_DELETED,
    COMMITTED_AI_ACCEPTED, COMMITTED_AI_ADDITIONS, COMMITTED_GIT_DIFF_ADDED_LINES,
    COMMITTED_GIT_DIFF_DELETED_LINES, COMMITTED_HUMAN_ADDITIONS,
};

verus! {

/// Default export interval in seconds.
pub const DEFAULT_EXPORT_INTERVAL_SECS: u64 = 60;

/// Request timeout in seconds for the exporter.
pub const EXPORT_TIMEOUT_SECS: u64 = 10;

/// Default destination endpoint.
pub fn default_otel_endpoint() -> (s: &'static str)
    ensures
        s@ == "http://localhost:4317"@,
{
    "http://localhost:4317"
}

/// Service name reported with every export.
pub fn service_name() -> (s: &'static str)
    ensures
        s@ == "git-ai"@,
{
    "git-ai"
}

/// Wire protocol of the export transport.
#[derive(Clone, Copy, Debug, PartialEq, Eq, Structural)]
pub enum OtelProtocol {
    /// OTLP over gRPC.
    Grpc,
    /// OTLP over HTTP with protobuf payloads.
    Http,
}

impl Default for OtelProtocol {
    fn default() -> (p: Self)
        ensures
            p == OtelProtocol::Grpc,
    {
        OtelProtocol::Grpc
    }
}

/// Export configuration.  Absent configuration leaves export disabled with
/// no behavioral effect on the sync engine.
#[derive(Clone, Debug)]
pub struct OtelConfig {
    /// Destination endpoint URL.
    pub endpoint: String,
    /// Whether export is enabled at all.
    pub enabled: bool,
    /// Export interval in seconds.
    pub export_interval_secs: u64,
    /// Optional authorization header value.
    pub auth_header: Option<String>,
    /// Wire protocol to use.
    pub protocol: OtelProtocol,
}

impl Default for OtelConfig {
    fn default() -> (c: Self)
        ensures
            c.endpoint@ == "http://localhost:4317"@,
            !c.enabled,
            c.export_interval_secs == DEFAULT_EXPORT_INTERVAL_SECS,
            c.auth_header is None,
            c.protocol == OtelProtocol::Grpc,
    {
        OtelConfig {
            endpoint: String::from_str(default_otel_endpoint()),
            enabled: false,
            export_interval_secs: DEFAULT_EXPORT_INTERVAL_SECS,
            auth_header: None,
            protocol: OtelProtocol::Grpc,
        }
    }
}

/// A case-insensitive spelling of `true`.
pub open spec fn is_true_ci(s: Seq<char>) -> bool {
    s.len() == 4 && (s[0] == 't' || s[0] == 'T') && (s[1] == 'r' || s[1] == 'R') && (s[2] == 'u'
        || s[2] == 'U') && (s[3] == 'e' || s[3] == 'E')
}

/// A case-insensitive spelling of `http`.
pub open spec fn is_http_ci(s: Seq<char>) -> bool {
    s.len() == 4 && (s[0] == 'h' || s[0] == 'H') && (s[1] == 't' || s[1] == 'T') && (s[2] == 't'
        || s[2] == 'T') && (s[3] == 'p' || s[3] == 'P')
}

/// The spellings that switch export on: `1`, or `true` in any case.
pub open spec fn is_truthy(s: Seq<char>) -> bool {
    (s.len() == 1 && s[0] == '1') || is_true_ci(s)
}

fn matches_truthy(s: &str) -> (r: bool)
    ensures
        r == is_truthy(s@),
{
    let n = s.unicode_len();
    if n == 1 {
        s.get_char(0) == '1'
    } else if n == 4 {
        let c0 = s.get_char(0);
        let c1 = s.get_char(1);
        let c2 = s.get_char(2);
        let c3 = s.get_char(3);
        (c0 == 't' || c0 == 'T') && (c1 == 'r' || c1 == 'R') && (c2 == 'u' || c2 == 'U') && (c3
            == 'e' || c3 == 'E')
    } else {
        false
    }
}

fn matches_http(s: &str) -> (r: bool)
    ensures
        r == is_http_ci(s@),
{
    let n = s.unicode_len();
    if n == 4 {
        let c0 = s.get_char(0);
        let c1 = s.get_char(1);
        let c2 = s.get_char(2);
        let c3 = s.get_char(3);
        (c0 == 'h' || c0 == 'H') && (c1 == 't' || c1 == 'T') && (c2 == 't' || c2 == 'T') && (c3
            == 'p' || c3 == 'P')
    } else {
        false
    }
}

/// A decimal digit.
pub open spec fn is_digit(c: char) -> bool {
    '0' <= c && c <= '9'
}

/// Value of one decimal digit.
pub open spec fn digit_of(c: char) -> nat {
    (c as nat - '0' as nat) as nat
}

/// Value of a string of decimal digits.
pub open spec fn digits_val(s: Seq<char>) -> nat
    decreases s.len(),
{
    if s.len() == 0 {
        0
    } else {
        digits_val(s.drop_last()) * 10 + digit_of(s.last())
    }
}

/// The digit part of a decimal literal: everything after an optional
/// leading plus sign.
pub open spec fn u64_literal_body(s: Seq<char>) -> Seq<char> {
    if s.len() > 0 && s[0] == '+' {
        s.subrange(1, s.len() as int)
    } else {
        s
    }
}

/// The strings `u64` parsing accepts: an optional plus sign, then at least
/// one digit, with a value that fits.
pub open spec fn is_u64_literal(s: Seq<char>) -> bool {
    let b = u64_literal_body(s);
    &&& b.len() > 0
    &&& forall|i: int| 0 <= i < b.len() ==> is_digit(#[trigger] b[i])
    &&& digits_val(b) <= u64::MAX
}

/// What parsing a decimal `u64` returns.
pub open spec fn parse_u64_spec(s: Seq<char>) -> Option<u64> {
    if is_u64_literal(s) {
        Some(digits_val(u64_literal_body(s)) as u64)
    } else {
        None
    }
}

/// A longer digit string never has a smaller value.
proof fn lemma_digits_val_grows(s: Seq<char>, j: int, k: int)
    requires
        0 <= j <= k <= s.len(),
    ensures
        digits_val(s.subrange(0, j)) <= digits_val(s.subrange(0, k)),
    decreases k - j,
{
    if j < k {
        lemma_digits_val_grows(s, j, k - 1);
        let p = s.subrange(0, k);
        assert(p.drop_last() =~= s.subrange(0, k - 1));
        assert(digits_val(s.subrange(0, k - 1)) * 10 >= digits_val(s.subrange(0, k - 1)));
    }
}

/// Parse a decimal `u64` exactly as the standard numeric parser does: an
/// optional leading plus, at least one digit, no other characters, and a
/// value that fits.
pub fn parse_u64(s: &str) -> (r: Option<u64>)
    ensures
        r == parse_u64_spec(s@),
{
    let n = s.unicode_len();
    if n == 0 {
        return None;
    }
    let start: usize = if s.get_char(0) == '+' {
        1
    } else {
        0
    };
    if n == start {
        return None;
    }
    proof {
        assert(u64_literal_body(s@) =~= s@.subrange(start as int, n as int));
    }
    let mut acc: u128 = 0;
    let mut i: usize = start;
    while i < n
        invariant
            start <= i <= n,
            n == s@.len(),
            n > start,
            u64_literal_body(s@) =~= s@.subrange(start as int, n as int),
            forall|k: int| start <= k < i ==> is_digit(#[trigger] s@[k]),
            acc as nat == digits_val(s@.subrange(start as int, i as int)),
            acc <= u64::MAX as u128,
        decreases n - i,
    {
        let c = s.get_char(i);
        if c < '0' || c > '9' {
            proof {
                let body = u64_literal_body(s@);
                assert(body[i - start] == s@[i as int]);
                assert(!is_digit(body[i - start]));
            }
            return None;
        }
        let d: u128 = (c as u32 as u128) - 48;
        let ghost prefix = s@.subrange(start as int, i as int);
        let ghost prefix1 = s@.subrange(start as int, i + 1 as int);
        acc = acc * 10 + d;
        proof {
            assert(prefix1.drop_last() =~= prefix);
            assert(prefix1.last() == s@[i as int]);
            assert(acc as nat == digits_val(prefix1));
        }
        if acc > u64::MAX as u128 {
            proof {
                let body = u64_literal_body(s@);
                if forall|k: int| 0 <= k < body.len() ==> is_digit(#[trigger] body[k]) {
                    // every later digit only grows the value, so the whole
                    // literal overflows as well
                    assert(body =~= s@.subrange(start as int, n as int));
                    lemma_digits_val_grows(
                        s@.subrange(start as int, n as int),
                        i + 1 - start,
                        n - start,
                    );
                    assert(s@.subrange(start as int, n as int).subrange(0, i + 1 - start)
                        =~= prefix1);
                    assert(s@.subrange(start as int, n as int).subrange(0, n - start)
                        =~= s@.subrange(start as int, n as int));
                    assert(digits_val(body) > u64::MAX);
                }
            }
            return None;
        }
        i = i + 1;
    }
    proof {
        assert(s@.subrange(start as int, n as int) =~= u64_literal_body(s@));
        assert(is_u64_literal(s@));
    }
    Some(acc as u64)
}

impl OtelConfig {
    /// Build the configuration from the raw environment values, exactly as
    /// read: export switches on for `1` or any-case `true`; the endpoint
    /// falls back to the default; an unparsable interval falls back to the
    /// default; an empty authorization header counts as none; the protocol
    /// is HTTP only for an any-case `http`.
    pub fn from_env_values(
        enabled: Option<String>,
        endpoint: Option<String>,
        interval: Option<String>,
        auth_header: Option<String>,
        protocol: Option<String>,
    ) -> (c: OtelConfig)
        ensures
            c.enabled == (enabled matches Some(v) && is_truthy(v@)),
            (endpoint matches Some(e) ==> c.endpoint@ == e@),
            (endpoint is None ==> c.endpoint@ == "http://localhost:4317"@),
            c.export_interval_secs == (match interval {
                Some(v) => match parse_u64_spec(v@) {
                    Some(x) => x,
                    None => DEFAULT_EXPORT_INTERVAL_SECS as u64,
                },
                None => DEFAULT_EXPORT_INTERVAL_SECS as u64,
            }),
            (match auth_header {
                Some(a) => {
                    if a@.len() > 0 {
                        c.auth_header matches Some(h) && h@ == a@
                    } else {
                        c.auth_header is None
                    }
                },
                None => c.auth_header is None,
            }),
            c.protocol == (if protocol matches Some(p) && is_http_ci(p@) {
                OtelProtocol::Http
            } else {
                OtelProtocol::Grpc
            }),
    {
        let enabled_flag = match &enabled {
            Some(v) => matches_truthy(v.as_str()),
            None => false,
        };
        let endpoint_value = match endpoint {
            Some(e) => e,
            None => String::from_str(default_otel_endpoint()),
        };
        let interval_secs = match &interval {
            Some(v) => match parse_u64(v.as_str()) {
                Some(x) => x,
                None => DEFAULT_EXPORT_INTERVAL_SECS,
            },
            None => DEFAULT_EXPORT_INTERVAL_SECS,
        };
        let auth = match auth_header {
            Some(a) => {
                if a.as_str().unicode_len() > 0 {
                    Some(a)
                } else {
                    None
                }
            },
            None => None,
        };
        let protocol_choice = match &protocol {
            Some(p) => {
                if matches_http(p.as_str()) {
                    OtelProtocol::Http
                } else {
                    OtelProtocol::Grpc
                }
            },
            None => OtelProtocol::Grpc,
        };
        OtelConfig {
            endpoint: endpoint_value,
            enabled: enabled_flag,
            export_interval_secs: interval_secs,
            auth_header: auth,
            protocol: protocol_choice,
        }
    }
}

/// Everything the transport needs to build the exporter, decided entirely
/// from the configuration: protocol, destination, timeout, interval, and
/// the authorization header to attach, whichever wire form it takes.
pub struct ExporterSetup {
    /// Wire protocol.
    pub protocol: OtelProtocol,
    /// Destination endpoint URL.
    pub endpoint: String,
    /// Request timeout in seconds.
    pub timeout_secs: u64,
    /// Export interval in seconds.
    pub export_interval_secs: u64,
    /// Authorization header value, if one is configured.
    pub auth_header: Option<String>,
}

/// The exporter setup a configuration calls for, or nothing when export is
/// disabled.
pub fn exporter_plan(config: &OtelConfig) -> (p: Option<ExporterSetup>)
    ensures
        !config.enabled ==> p is None,
        config.enabled ==> (p matches Some(setup) && setup.protocol == config.protocol
            && setup.endpoint@ == config.endpoint@ && setup.timeout_secs == EXPORT_TIMEOUT_SECS
            && setup.export_interval_secs == config.export_interval_secs && (match config
            .auth_header {
            Some(a) => setup.auth_header matches Some(h) && h@ == a@,
            None => setup.auth_header is None,
        })),
{
    if !config.enabled {
        return None;
    }
    let auth = match &config.auth_header {
        Some(a) => Some(a.clone()),
        None => None,
    };
    Some(
        ExporterSetup {
            protocol: config.protocol,
            endpoint: config.endpoint.clone(),
            timeout_secs: EXPORT_TIMEOUT_SECS,
            export_interval_secs: config.export_interval_secs,
            auth_header: auth,
        },
    )
}

/// The instruments events are routed to: monotonic counters plus the two
/// checkpoint line distributions.
#[derive(Clone, Copy, Debug, PartialEq, Eq, Structural)]
pub enum Instrument {
    /// Counter of human-written lines committed.
    CommittedHumanAdditions,
    /// Counter of AI-generated lines committed.
    CommittedAiAdditions,
    /// Counter of lines added in the diff.
    CommittedDiffAdded,
    /// Counter of lines deleted in the diff.
    CommittedDiffDeleted,
    /// Counter of AI-generated lines accepted into the commit.
    CommittedAiAccepted,
    /// Counter of agent-usage events.
    AgentUsageCount,
    /// Counter of checkpoint events.
    CheckpointCount,
    /// Histogram of lines added per checkpoint.
    CheckpointLinesAdded,
    /// Histogram of lines deleted per checkpoint.
    CheckpointLinesDeleted,
}

/// The wire name of each instrument.
pub open spec fn instrument_name_spec(i: Instrument) -> Seq<char> {
    match i {
        Instrument::CommittedHumanAdditions => "git_ai.committed.human_additions"@,
        Instrument::CommittedAiAdditions => "git_ai.committed.ai_additions"@,
        Instrument::CommittedDiffAdded => "git_ai.committed.diff_added"@,
        Instrument::CommittedDiffDeleted => "git_ai.committed.diff_deleted"@,
        Instrument::CommittedAiAccepted => "git_ai.committed.ai_accepted"@,
        Instrument::AgentUsageCount => "git_ai.agent_usage.count"@,
        Instrument::CheckpointCount => "git_ai.checkpoint.count"@,
        Instrument::CheckpointLinesAdded => "git_ai.checkpoint.lines_added"@,
        Instrument::CheckpointLinesDeleted => "git_ai.checkpoint.lines_deleted"@,
    }
}

/// The description of each instrument.
pub open spec fn instrument_description_spec(i: Instrument) -> Seq<char> {
    match i {
        Instrument::CommittedHumanAdditions => "Number of human-written lines committed"@,
        Instrument::CommittedAiAdditions => "Number of AI-generated lines committed"@,
        Instrument::CommittedDiffAdded => "Total lines added in git diff"@,
        Instrument::CommittedDiffDeleted => "Total lines deleted in git diff"@,
        Instrument::CommittedAiAccepted => "Number of AI-generated lines accepted into commit"@,
        Instrument::AgentUsageCount => "Number of AI agent usage events"@,
        Instrument::CheckpointCount => "Number of checkpoint events"@,
        Instrument::CheckpointLinesAdded => "Lines added per checkpoint"@,
        Instrument::CheckpointLinesDeleted => "Lines deleted per checkpoint"@,
    }
}

impl Instrument {
    /// The two distribution instruments record, all others add.
    pub open spec fn is_histogram_spec(self) -> bool {
        self is CheckpointLinesAdded || self is CheckpointLinesDeleted
    }

    /// Whether an amount for this instrument is recorded into a
    /// distribution rather than added to a counter.
    pub fn is_histogram(self) -> (r: bool)
        ensures
            r == self.is_histogram_spec(),
    {
        match self {
            Instrument::CheckpointLinesAdded => true,
            Instrument::CheckpointLinesDeleted => true,
            _ => false,
        }
    }

    /// The instrument's wire name.
    pub fn name(self) -> (s: &'static str)
        ensures
            s@ == instrument_name_spec(self),
    {
        match self {
            Instrument::CommittedHumanAdditions => "git_ai.committed.human_additions",
            Instrument::CommittedAiAdditions => "git_ai.committed.ai_additions",
            Instrument::CommittedDiffAdded => "git_ai.committed.diff_added",
            Instrument::CommittedDiffDeleted => "git_ai.committed.diff_deleted",
            Instrument::CommittedAiAccepted => "git_ai.committed.ai_accepted",
            Instrument::AgentUsageCount => "git_ai.agent_usage.count",
            Instrument::CheckpointCount => "git_ai.checkpoint.count",
            Instrument::CheckpointLinesAdded => "git_ai.checkpoint.lines_added",
            Instrument::CheckpointLinesDeleted => "git_ai.checkpoint.lines_deleted",
        }
    }

    /// The instrument's description.
    pub fn description(self) -> (s: &'static str)
        ensures
            s@ == instrument_description_spec(self),
    {
        match self {
            Instrument::CommittedHumanAdditions => "Number of human-written lines committed",
            Instrument::CommittedAiAdditions => "Number of AI-generated lines committed",
            Instrument::CommittedDiffAdded => "Total lines added in git diff",
            Instrument::CommittedDiffDeleted => "Total lines deleted in git diff",
            Instrument::CommittedAiAccepted => "Number of AI-generated lines accepted into commit",
            Instrument::AgentUsageCount => "Number of AI agent usage events",
            Instrument::CheckpointCount => "Number of checkpoint events",
            Instrument::CheckpointLinesAdded => "Lines added per checkpoint",
            Instrument::CheckpointLinesDeleted => "Lines deleted per checkpoint",
        }
    }
}

/// Every instrument once, in registration order.
pub fn instrument_catalog() -> (v: Vec<Instrument>)
    ensures
        v@ =~= seq![
            Instrument::CommittedHumanAdditions,
            Instrument::CommittedAiAdditions,
            Instrument::CommittedDiffAdded,
            Instrument::CommittedDiffDeleted,
            Instrument::CommittedAiAccepted,
            Instrument::AgentUsageCount,
            Instrument::CheckpointCount,
            Instrument::CheckpointLinesAdded,
            Instrument::CheckpointLinesDeleted,
        ],
{
    let mut v: Vec<Instrument> = Vec::new();
    v.push(Instrument::CommittedHumanAdditions);
    v.push(Instrument::CommittedAiAdditions);
    v.push(Instrument::CommittedDiffAdded);
    v.push(Instrument::CommittedDiffDeleted);
    v.push(Instrument::CommittedAiAccepted);
    v.push(Instrument::AgentUsageCount);
    v.push(Instrument::CheckpointCount);
    v.push(Instrument::CheckpointLinesAdded);
    v.push(Instrument::CheckpointLinesDeleted);
    v
}

/// One string attribute attached to an exported amount.
#[derive(Clone, Debug)]
pub struct ExportAttr {
    /// Attribute name on the wire.
    pub name: String,
    /// Attribute value.
    pub value: String,
}

/// The view of an attribute: its name and value as character sequences.
pub open spec fn attr_view(a: ExportAttr) -> (Seq<char>, Seq<char>) {
    (a.name@, a.value@)
}

/// The wire name of each attribute position the exporter understands.
pub open spec fn attr_name_spec(pos: u64) -> Seq<char> {
    if pos == ATTR_REPO_URL {
        "repo_url"@
    } else if pos == ATTR_AUTHOR {
        "author"@
    } else if pos == ATTR_COMMIT_SHA {
        "commit_sha"@
    } else if pos == ATTR_BASE_COMMIT_SHA {
        "base_commit_sha"@
    } else if pos == ATTR_BRANCH {
        "branch"@
    } else if pos == ATTR_TOOL {
        "tool"@
    } else if pos == ATTR_MODEL {
        "model"@
    } else if pos == ATTR_PROMPT_ID {
        "prompt_id"@
    } else {
        Seq::empty()
    }
}

/// What one attribute position contributes: its name and the stored text,
/// or nothing when the position is absent or not text.
pub open spec fn attr_slot(rec: SparseRecord, pos: u64) -> Seq<(Seq<char>, Seq<char>)> {
    match rec.lookup(pos) {
        Some(FieldValue::Text(s)) => seq![(attr_name_spec(pos), s@)],
        _ => Seq::empty(),
    }
}

/// The attributes extracted from an event's attribute record, in the fixed
/// position order.
pub open spec fn extract_attrs_spec(rec: SparseRecord) -> Seq<(Seq<char>, Seq<char>)> {
    attr_slot(rec, ATTR_REPO_URL) + attr_slot(rec, ATTR_AUTHOR) + attr_slot(rec, ATTR_COMMIT_SHA)
        + attr_slot(rec, ATTR_BASE_COMMIT_SHA) + attr_slot(rec, ATTR_BRANCH) + attr_slot(
        rec,
        ATTR_TOOL,
    ) + attr_slot(rec, ATTR_MODEL) + attr_slot(rec, ATTR_PROMPT_ID)
}

/// Append the attribute for one position, if present as text.
fn push_text_attr(out: &mut Vec<ExportAttr>, rec: &SparseRecord, pos: u64, name: &'static str)
    requires
        name@ == attr_name_spec(pos),
    ensures
        final(out)@.map_values(|a: ExportAttr| attr_view(a)) == old(out)@.map_values(
            |a: ExportAttr| attr_view(a),
        ) + attr_slot(*rec, pos),
{
    let looked = rec.get(pos);
    match looked {
        Some(v) => match v {
            FieldValue::Text(s) => {
                let attr = ExportAttr { name: String::from_str(name), value: s.clone() };
                out.push(attr);
                proof {
                    assert(out@.map_values(|a: ExportAttr| attr_view(a)) =~= old(
                        out,
                    )@.map_values(|a: ExportAttr| attr_view(a)) + attr_slot(*rec, pos));
                }
            },
            _ => {
                proof {
                    assert(out@.map_values(|a: ExportAttr| attr_view(a)) =~= old(
                        out,
                    )@.map_values(|a: ExportAttr| attr_view(a)) + attr_slot(*rec, pos));
                }
            },
        },
        None => {
            proof {
                assert(out@.map_values(|a: ExportAttr| attr_view(a)) =~= old(
                    out,
                )@.map_values(|a: ExportAttr| attr_view(a)) + attr_slot(*rec, pos));
            }
        },
    }
}

/// Extract the string attributes the exporter tags amounts with, in the
/// fixed position order, skipping absent or non-text positions.
pub fn extract_attributes(rec: &SparseRecord) -> (r: Vec<ExportAttr>)
    ensures
        r@.map_values(|a: ExportAttr| attr_view(a)) == extract_attrs_spec(*rec),
{
    let mut out: Vec<ExportAttr> = Vec::new();
    push_text_attr(&mut out, rec, ATTR_REPO_URL, "repo_url");
    push_text_attr(&mut out, rec, ATTR_AUTHOR, "author");
    push_text_attr(&mut out, rec, ATTR_COMMIT_SHA, "commit_sha");
    push_text_attr(&mut out, rec, ATTR_BASE_COMMIT_SHA, "base_commit_sha");
    push_text_attr(&mut out, rec, ATTR_BRANCH, "branch");
    push_text_attr(&mut out, rec, ATTR_TOOL, "tool");
    push_text_attr(&mut out, rec, ATTR_MODEL, "model");
    push_text_attr(&mut out, rec, ATTR_PROMPT_ID, "prompt_id");
    proof {
        assert(out@.map_values(|a: ExportAttr| attr_view(a)) =~= extract_attrs_spec(*rec));
    }
    out
}

/// One amount bound for one instrument.
#[derive(Clone, Copy, Debug, PartialEq, Eq, Structural)]
pub struct MetricUpdate {
    /// The instrument receiving the amount.
    pub instrument: Instrument,
    /// The amount added or recorded.
    pub amount: u64,
}

/// Sum of a list of counts.
pub open spec fn seq_sum(s: Seq<u64>) -> nat
    decreases s.len(),
{
    if s.len() == 0 {
        0
    } else {
        seq_sum(s.drop_last()) + s.last() as nat
    }
}

/// Sum of a list of counts, capped at the largest representable total.
pub open spec fn sat_total(s: Seq<u64>) -> u64 {
    if seq_sum(s) > u64::MAX {
        u64::MAX
    } else {
        seq_sum(s) as u64
    }
}

/// What one single-count position contributes to the plan.
pub open spec fn count_slot(rec: SparseRecord, pos: u64, inst: Instrument) -> Seq<MetricUpdate> {
    match rec.lookup(pos) {
        Some(FieldValue::Count(n)) => seq![MetricUpdate { instrument: inst, amount: n }],
        _ => Seq::empty(),
    }
}

/// What one count-list position contributes: the capped total over all
/// sources, and only when that total is positive.
pub open spec fn sum_slot(rec: SparseRecord, pos: u64, inst: Instrument) -> Seq<MetricUpdate> {
    match rec.lookup(pos) {
        Some(FieldValue::CountList(v)) => {
            if seq_sum(v@) > 0 {
                seq![MetricUpdate { instrument: inst, amount: sat_total(v@) }]
            } else {
                Seq::empty()
            }
        },
        _ => Seq::empty(),
    }
}

/// The updates a committed event produces.
pub open spec fn committed_plan_spec(values: SparseRecord) -> Seq<MetricUpdate> {
    count_slot(values, COMMITTED_HUMAN_ADDITIONS, Instrument::CommittedHumanAdditions)
        + count_slot(values, COMMITTED_GIT_DIFF_ADDED_LINES, Instrument::CommittedDiffAdded)
        + count_slot(values, COMMITTED_GIT_DIFF_DELETED_LINES, Instrument::CommittedDiffDeleted)
        + sum_slot(values, COMMITTED_AI_ADDITIONS, Instrument::CommittedAiAdditions)
        + sum_slot(values, COMMITTED_AI_ACCEPTED, Instrument::CommittedAiAccepted)
}

/// The updates a checkpoint event produces.
pub open spec fn checkpoint_plan_spec(values: SparseRecord) -> Seq<MetricUpdate> {
    seq![MetricUpdate { instrument: Instrument::CheckpointCount, amount: 1 }]
        + count_slot(values, CHECKPOINT_LINES_ADDED, Instrument::CheckpointLinesAdded)
        + count_slot(values, CHECKPOINT_LINES_DELETED, Instrument::CheckpointLinesDeleted)
}

/// The updates any event produces: committed, agent-usage and checkpoint
/// events are routed to their instruments; hook-installation events and
/// unknown codes produce nothing.
pub open spec fn export_plan_spec(event: MetricEvent) -> Seq<MetricUpdate> {
    match event_id_spec(event.event_id) {
        Some(MetricEventId::Committed) => committed_plan_spec(event.values),
        Some(MetricEventId::AgentUsage) => seq![
            MetricUpdate { instrument: Instrument::AgentUsageCount, amount: 1 },
        ],
        Some(MetricEventId::Checkpoint) => checkpoint_plan_spec(event.values),
        Some(MetricEventId::InstallHooks) => Seq::empty(),
        None => Seq::empty(),
    }
}

/// Total a count list, capping at the largest representable value instead
/// of overflowing.
fn saturating_total(v: &Vec<u64>) -> (t: u64)
    ensures
        t == sat_total(v@),
{
    let n = v.len();
    let mut acc: u64 = 0;
    let mut i: usize = 0;
    while i < n
        invariant
            i <= n,
            n == v@.len(),
            acc == sat_total(v@.subrange(0, i as int)),
        decreases n - i,
    {
        let ghost p = v@.subrange(0, i as int);
        let ghost p1 = v@.subrange(0, i + 1 as int);
        let x = v[i];
        proof {
            assert(p1.drop_last() =~= p);
            assert(p1.last() == v@[i as int]);
        }
        if acc > u64::MAX - x {
            acc = u64::MAX;
        } else {
            acc = acc + x;
        }
        i = i + 1;
    }
    proof {
        assert(v@.subrange(0, n as int) =~= v@);
    }
    acc
}

/// Append the update for a single-count position, if present.
fn push_count_update(out: &mut Vec<MetricUpdate>, rec: &SparseRecord, pos: u64, inst: Instrument)
    ensures
        final(out)@ == old(out)@ + count_slot(*rec, pos, inst),
{
    let looked = rec.get(pos);
    match looked {
        Some(v) => match v {
            FieldValue::Count(n) => {
                out.push(MetricUpdate { instrument: inst, amount: *n });
                proof {
                    assert(out@ =~= old(out)@ + count_slot(*rec, pos, inst));
                }
            },
            _ => {
                proof {
                    assert(out@ =~= old(out)@ + count_slot(*rec, pos, inst));
                }
            },
        },
        None => {
            proof {
                assert(out@ =~= old(out)@ + count_slot(*rec, pos, inst));
            }
        },
    }
}

/// Append the update for a count-list position: the capped total over all
/// sources, and only when it is positive.
fn push_sum_update(out: &mut Vec<MetricUpdate>, rec: &SparseRecord, pos: u64, inst: Instrument)
    ensures
        final(out)@ == old(out)@ + sum_slot(*rec, pos, inst),
{
    let looked = rec.get(pos);
    match looked {
        Some(v) => match v {
            FieldValue::CountList(list) => {
                let total = saturating_total(list);
                if total > 0 {
                    out.push(MetricUpdate { instrument: inst, amount: total });
                    proof {
                        assert(out@ =~= old(out)@ + sum_slot(*rec, pos, inst));
                    }
                } else {
                    proof {
                        assert(out@ =~= old(out)@ + sum_slot(*rec, pos, inst));
                    }
                }
            },
            _ => {
                proof {
                    assert(out@ =~= old(out)@ + sum_slot(*rec, pos, inst));
                }
            },
        },
        None => {
            proof {
                assert(out@ =~= old(out)@ + sum_slot(*rec, pos, inst));
            }
        },
    }
}

/// The lifecycle of the export handle.
#[derive(Clone, Copy, Debug, PartialEq, Eq, Structural)]
pub enum OtelStatus {
    /// No initialization attempt has been made yet.
    Uninitialized,
    /// Export is off: disabled by configuration, or the backend could not
    /// be built.
    Disabled,
    /// Export is running.
    Active,
    /// Export ran and was shut down.
    ShutDown,
}

/// The owned export handle: one per process, created at startup, shut down
/// explicitly.  It replaces hidden global state so the adapter's behavior
/// is a function of the handle passed in.
pub struct OtelHandle {
    /// Where the handle stands in its lifecycle.
    pub status: OtelStatus,
}

impl OtelHandle {
    /// Whether events are currently exported.
    pub open spec fn is_active(self) -> bool {
        self.status is Active
    }

    /// A fresh handle: nothing initialized, nothing exported.
    pub fn new() -> (h: OtelHandle)
        ensures
            h.status == OtelStatus::Uninitialized,
    {
        OtelHandle { status: OtelStatus::Uninitialized }
    }
}

/// Initialize export once.  `backend_ready` reports whether the transport
/// actually came up; a disabled configuration never activates and reports
/// `false` whatever the handle held.  A handle past initialization is left
/// exactly as it was.
pub fn init_otel(handle: &mut OtelHandle, config: &OtelConfig, backend_ready: bool) -> (r: bool)
    ensures
        !config.enabled ==> !r,
        !config.enabled ==> final(handle).status == (if old(handle).status is Uninitialized {
            OtelStatus::Disabled
        } else {
            old(handle).status
        }),
        config.enabled ==> final(handle).status == (if old(handle).status is Uninitialized {
            if backend_ready {
                OtelStatus::Active
            } else {
                OtelStatus::Disabled
            }
        } else {
            old(handle).status
        }),
        config.enabled ==> r == final(handle).is_active(),
{
    if !config.enabled {
        if matches!(handle.status, OtelStatus::Uninitialized) {
            handle.status = OtelStatus::Disabled;
        }
        return false;
    }
    if matches!(handle.status, OtelStatus::Uninitialized) {
        handle.status = if backend_ready {
            OtelStatus::Active
        } else {
            OtelStatus::Disabled
        };
    }
    matches!(handle.status, OtelStatus::Active)
}

/// Initialize lazily: a handle already past initialization just reports
/// whether it is active; a fresh one is initialized from the given
/// configuration.
pub fn ensure_otel_initialized(
    handle: &mut OtelHandle,
    config: &OtelConfig,
    backend_ready: bool,
) -> (r: bool)
    ensures
        !(old(handle).status is Uninitialized) ==> *final(handle) == *old(handle)
            && r == old(handle).is_active(),
        old(handle).status is Uninitialized && !config.enabled ==> !r && final(handle).status
            == OtelStatus::Disabled,
        old(handle).status is Uninitialized && config.enabled ==> r == backend_ready
            && final(handle).status == (if backend_ready {
            OtelStatus::Active
        } else {
            OtelStatus::Disabled
        }),
{
    match handle.status {
        OtelStatus::Uninitialized => init_otel(handle, config, backend_ready),
        OtelStatus::Active => true,
        _ => false,
    }
}

/// Shut export down.  Only an active handle transitions; everything else
/// is left as it was.
pub fn shutdown_otel(handle: &mut OtelHandle)
    ensures
        old(handle).status is Active ==> final(handle).status == OtelStatus::ShutDown,
        !(old(handle).status is Active) ==> *final(handle) == *old(handle),
{
    if matches!(handle.status, OtelStatus::Active) {
        handle.status = OtelStatus::ShutDown;
    }
}

/// Everything the transport must send for one event: the tagging
/// attributes and the instrument amounts, in order.
pub struct ExportPlan {
    /// The string attributes tagging every amount of this event.
    pub attrs: Vec<ExportAttr>,
    /// The amounts, one per receiving instrument.
    pub updates: Vec<MetricUpdate>,
}

/// Route one metric event: with an active handle, the full plan for the
/// event; otherwise an empty plan, and the event is dropped without any
/// effect.
pub fn export_metric_event(handle: &OtelHandle, event: &MetricEvent) -> (plan: ExportPlan)
    ensures
        handle.is_active() ==> plan.updates@ == export_plan_spec(*event),
        handle.is_active() ==> plan.attrs@.map_values(|a: ExportAttr| attr_view(a))
            == extract_attrs_spec(event.attrs),
        !handle.is_active() ==> plan.updates@.len() == 0 && plan.attrs@.len() == 0,
{
    if !matches!(handle.status, OtelStatus::Active) {
        return ExportPlan { attrs: Vec::new(), updates: Vec::new() };
    }
    let attrs = extract_attributes(&event.attrs);
    let mut updates: Vec<MetricUpdate> = Vec::new();
    match event_id_from_code(event.event_id) {
        Some(MetricEventId::Committed) => {
            push_count_update(
                &mut updates,
                &event.values,
                COMMITTED_HUMAN_ADDITIONS,
                Instrument::CommittedHumanAdditions,
            );
            push_count_update(
                &mut updates,
                &event.values,
                COMMITTED_GIT_DIFF_ADDED_LINES,
                Instrument::CommittedDiffAdded,
            );
            push_count_update(
                &mut updates,
                &event.values,
                COMMITTED_GIT_DIFF_DELETED_LINES,
                Instrument::CommittedDiffDeleted,
            );
            push_sum_update(
                &mut updates,
                &event.values,
                COMMITTED_AI_ADDITIONS,
                Instrument::CommittedAiAdditions,
            );
            push_sum_update(
                &mut updates,
                &event.values,
                COMMITTED_AI_ACCEPTED,
                Instrument::CommittedAiAccepted,
            );
            proof {
                assert(updates@ =~= export_plan_spec(*event));
            }
        },
        Some(MetricEventId::AgentUsage) => {
            updates.push(MetricUpdate { instrument: Instrument::AgentUsageCount, amount: 1 });
            proof {
                assert(updates@ =~= export_plan_spec(*event));
            }
        },
        Some(MetricEventId::Checkpoint) => {
            updates.push(MetricUpdate { instrument: Instrument::CheckpointCount, amount: 1 });
            push_count_update(
                &mut updates,
                &event.values,
                CHECKPOINT_LINES_ADDED,
                Instrument::CheckpointLinesAdded,
            );
            push_count_update(
                &mut updates,
                &event.values,
                CHECKPOINT_LINES_DELETED,
                Instrument::CheckpointLinesDeleted,
            );
            proof {
                assert(updates@ =~= export_plan_spec(*event));
            }
        },
        Some(MetricEventId::InstallHooks) => {
            // hook-installation events are intentionally not exported
        },
        None => {
            // unknown event codes are skipped
        },
    }
    ExportPlan { attrs, updates }
}

} // verus!
