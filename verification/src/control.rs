use vstd::prelude::*;

use crate::session::{HunterConfig, HunterConfigView};
use crate::vulnerability::{findings_view, Vulnerability, VulnerabilityView};
use crate::text::{
    chars_eq_ignore_ascii_case, chars_of, eq_ignore_ascii_case, first_white_space,
    first_white_space_index, nonblank_trimmed, nonblank_trimmed_strings, opt_text,
    parse_unsigned, parse_unsigned_chars, slice_chars, split_chars, split_on, string_of,
    text_equals, texts, trim, trim_chars, contains_chars, has_substring,
};

verus! {

/// The port the control plane listens on when none is configured.
pub const DEFAULT_PORT: u16 = 8080;

/// The readiness threshold when none is configured.
pub const DEFAULT_MINIMUM_ACTIVE_AGENTS: usize = 2;

/// The tokens and switches that the control plane reads from its environment.
#[derive(Clone, Debug, PartialEq, Eq)]
pub struct RuntimeConfig {
    pub operator_api_token: Option<String>,
    pub discord_bot_token: Option<String>,
    pub discord_ingest_token: Option<String>,
    pub monitor_state_path: Option<String>,
    pub strict_startup: bool,
}

pub struct RuntimeConfigView {
    pub operator_api_token: Option<Seq<char>>,
    pub discord_bot_token: Option<Seq<char>>,
    pub discord_ingest_token: Option<Seq<char>>,
    pub monitor_state_path: Option<Seq<char>>,
    pub strict_startup: bool,
}

impl View for RuntimeConfig {
    type V = RuntimeConfigView;

    open spec fn view(&self) -> RuntimeConfigView {
        RuntimeConfigView {
            operator_api_token: opt_text(self.operator_api_token),
            discord_bot_token: opt_text(self.discord_bot_token),
            discord_ingest_token: opt_text(self.discord_ingest_token),
            monitor_state_path: opt_text(self.monitor_state_path),
            strict_startup: self.strict_startup,
        }
    }
}

/// A configured value: the raw value trimmed, when that leaves something.
pub open spec fn configured_value(raw: Seq<char>) -> Option<Seq<char>> {
    if trim(raw).len() > 0 {
        Some(trim(raw))
    } else {
        None
    }
}

/// The trimmed value, or nothing when it is blank.
pub fn env_token_value(raw: &str) -> (value: Option<String>)
    ensures
        opt_text(value) == configured_value(raw@),
{
    let chars = chars_of(raw);
    let t = trim_chars(&chars);
    if t.len() > 0 {
        Some(string_of(&t))
    } else {
        None
    }
}

/// The Hunter identity used when none is configured.
pub open spec fn default_hunter_identity() -> Seq<char> {
    "hunter-prime"@
}

/// The Hunter identity: the configured value trimmed, or `hunter-prime` when
/// it is unset or blank.
pub fn hunter_identity_or_default(value: Option<&str>) -> (identity: String)
    ensures
        identity@ == match opt_str_view(value) {
            Some(v) => match configured_value(v) {
                Some(t) => t,
                None => default_hunter_identity(),
            },
            None => default_hunter_identity(),
        },
{
    match value {
        Some(v) => match env_token_value(v) {
            Some(t) => t,
            None => "hunter-prime".to_owned(),
        },
        None => "hunter-prime".to_owned(),
    }
}

/// Strict startup is asked for by `1`, `true`, `TRUE`, `yes` or `YES`, with
/// white space around it allowed.
pub open spec fn strict_startup_value(value: Option<Seq<char>>) -> bool {
    match value {
        Some(v) => {
            let t = trim(v);
            t == "1"@ || t == "true"@ || t == "TRUE"@ || t == "yes"@ || t == "YES"@
        },
        None => false,
    }
}

pub fn strict_startup_enabled(value: Option<&str>) -> (strict: bool)
    ensures
        strict == strict_startup_value(
            match value {
                Some(v) => Some(v@),
                None => None,
            },
        ),
{
    match value {
        Some(v) => {
            let chars = chars_of(v);
            let t = trim_chars(&chars);
            text_equals(&t, "1") || text_equals(&t, "true") || text_equals(&t, "TRUE")
                || text_equals(&t, "yes") || text_equals(&t, "YES")
        },
        None => false,
    }
}

/// The items of a comma-separated list: each trimmed, the blank ones left out.
pub open spec fn csv_items(value: Seq<char>) -> Seq<Seq<char>> {
    nonblank_trimmed(split_on(value, ','))
}

pub fn parse_csv_list(value: &str) -> (items: Vec<String>)
    ensures
        texts(items@) == csv_items(value@),
{
    let chars = chars_of(value);
    let pieces = split_chars(&chars, ',');
    nonblank_trimmed_strings(&pieces)
}

/// A port number, as `str::parse::<u16>` reads it.
pub fn parse_port(value: &str) -> (port: Option<u16>)
    ensures
        match parse_unsigned(value@, u16::MAX as nat) {
            Some(v) => port == Some(v as u16),
            None => port is None,
        },
{
    let chars = chars_of(value);
    match parse_unsigned_chars(&chars, u16::MAX as u64) {
        Some(v) => Some(v as u16),
        None => None,
    }
}

/// A count, as `str::parse::<usize>` reads it.
pub fn parse_count(value: &str) -> (count: Option<usize>)
    ensures
        match parse_unsigned(value@, usize::MAX as nat) {
            Some(v) => count == Some(v as usize),
            None => count is None,
        },
{
    let chars = chars_of(value);
    match parse_unsigned_chars(&chars, usize::MAX as u64) {
        Some(v) => Some(v as usize),
        None => None,
    }
}

/// The port to listen on: the configured one when it reads as a port, else the default.
pub fn port_or_default(value: Option<&str>) -> (port: u16)
    ensures
        match value {
            Some(v) => match parse_unsigned(v@, u16::MAX as nat) {
                Some(p) => port == p,
                None => port == DEFAULT_PORT,
            },
            None => port == DEFAULT_PORT,
        },
{
    match value {
        Some(v) => match parse_port(v) {
            Some(p) => p,
            None => DEFAULT_PORT,
        },
        None => DEFAULT_PORT,
    }
}

/// The readiness threshold: the configured one when it reads as a count, else the default.
pub fn minimum_agents_or_default(value: Option<&str>) -> (count: usize)
    ensures
        match value {
            Some(v) => match parse_unsigned(v@, usize::MAX as nat) {
                Some(c) => count == c,
                None => count == DEFAULT_MINIMUM_ACTIVE_AGENTS,
            },
            None => count == DEFAULT_MINIMUM_ACTIVE_AGENTS,
        },
{
    match value {
        Some(v) => match parse_count(v) {
            Some(c) => c,
            None => DEFAULT_MINIMUM_ACTIVE_AGENTS,
        },
        None => DEFAULT_MINIMUM_ACTIVE_AGENTS,
    }
}

/// `seq![message]` when `missing`, else nothing.
pub open spec fn error_if(missing: bool, message: Seq<char>) -> Seq<Seq<char>> {
    if missing {
        seq![message]
    } else {
        Seq::empty()
    }
}

/// What is missing for the control plane to run: the Hunter identity, the
/// Discord bot token, the operator token and the Discord ingest token, in that order.
pub open spec fn configuration_error_list(
    config: HunterConfigView,
    runtime: RuntimeConfigView,
) -> Seq<Seq<char>> {
    error_if(trim(config.hunter_identity).len() == 0, "HUNTER_IDENTITY is not configured."@)
        + error_if(runtime.discord_bot_token is None, "DISCORD_BOT_TOKEN is not configured."@)
        + error_if(runtime.operator_api_token is None, "OPERATOR_API_TOKEN is not configured."@)
        + error_if(runtime.discord_ingest_token is None, "DISCORD_INGEST_TOKEN is not configured."@)
}

fn push_error_if(errors: &mut Vec<String>, missing: bool, message: &str)
    ensures
        texts(final(errors)@) == texts(old(errors)@) + error_if(missing, message@),
{
    if missing {
        errors.push(message.to_owned());
    }
    assert(texts(errors@) =~= texts(old(errors)@) + error_if(missing, message@));
}

pub fn configuration_errors(config: &HunterConfig, runtime_config: &RuntimeConfig) -> (errors: Vec<String>)
    ensures
        texts(errors@) == configuration_error_list(config@, runtime_config@),
{
    let mut errors: Vec<String> = Vec::new();
    let identity = chars_of(config.hunter_identity.as_str());
    let identity = trim_chars(&identity);
    push_error_if(&mut errors, identity.len() == 0, "HUNTER_IDENTITY is not configured.");
    push_error_if(
        &mut errors,
        runtime_config.discord_bot_token.is_none(),
        "DISCORD_BOT_TOKEN is not configured.",
    );
    push_error_if(
        &mut errors,
        runtime_config.operator_api_token.is_none(),
        "OPERATOR_API_TOKEN is not configured.",
    );
    push_error_if(
        &mut errors,
        runtime_config.discord_ingest_token.is_none(),
        "DISCORD_INGEST_TOKEN is not configured.",
    );
    assert(texts(errors@) =~= configuration_error_list(config@, runtime_config@));
    errors
}

/// The token of an `Authorization` value: the trimmed value splits at its
/// first white space into a scheme, which must be `bearer` in any ASCII case,
/// and the rest, which trimmed is the token and must not be empty.
pub open spec fn bearer_token(value: Seq<char>) -> Option<Seq<char>> {
    let v = trim(value);
    let k = first_white_space(v) as int;
    let token = trim(v.subrange(k + 1, v.len() as int));
    if k < v.len() && eq_ignore_ascii_case(v.subrange(0, k), "bearer"@) && token.len() > 0 {
        Some(token)
    } else {
        None
    }
}

/// The bearer token of an optional `Authorization` value.
pub open spec fn authorization_token(authorization: Option<Seq<char>>) -> Option<Seq<char>> {
    match authorization {
        Some(value) => bearer_token(value),
        None => None,
    }
}

pub open spec fn opt_str_view(o: Option<&str>) -> Option<Seq<char>> {
    match o {
        Some(s) => Some(s@),
        None => None,
    }
}

/// The bearer token that an `Authorization` header value carries, if any.
pub fn expected_bearer_token(authorization: Option<&str>) -> (token: Option<String>)
    ensures
        opt_text(token) == authorization_token(opt_str_view(authorization)),
{
    let value = match authorization {
        Some(value) => value,
        None => return None,
    };
    let chars = chars_of(value);
    let v = trim_chars(&chars);
    let k = first_white_space_index(&v);
    if k >= v.len() {
        return None;
    }
    let scheme = slice_chars(&v, 0, k);
    let bearer = chars_of("bearer");
    if !chars_eq_ignore_ascii_case(&scheme, &bearer) {
        return None;
    }
    let rest = slice_chars(&v, k + 1, v.len());
    let token = trim_chars(&rest);
    if token.len() == 0 {
        return None;
    }
    Some(string_of(&token))
}

proof fn lemma_xor_zero_u8(a: u8, b: u8)
    ensures
        ((a ^ b) as usize == 0) == (a == b),
{
    assert(((a ^ b) as usize == 0) == (a == b)) by (bit_vector);
}

proof fn lemma_xor_zero_usize(a: usize, b: usize)
    ensures
        (a ^ b == 0) == (a == b),
{
    assert((a ^ b == 0) == (a == b)) by (bit_vector);
}

proof fn lemma_or_zero(a: usize, b: usize)
    ensures
        (a | b == 0) == (a == 0 && b == 0),
{
    assert((a | b == 0) == (a == 0 && b == 0)) by (bit_vector);
}

/// The byte at `i`, or 0 past the end.
pub open spec fn byte_or_zero(bytes: Seq<u8>, i: int) -> u8 {
    if i < bytes.len() {
        bytes[i]
    } else {
        0
    }
}

/// Compares two tokens in time that depends on their lengths only, not on
/// where they first differ.
pub fn secure_token_eq(expected: &str, provided: &str) -> (equal: bool)
    ensures
        equal == (expected@ == provided@),
{
    let a = expected.as_bytes();
    let b = provided.as_bytes();
    let mut diff: usize = a.len() ^ b.len();
    proof {
        lemma_xor_zero_usize(a.len(), b.len());
    }
    let max_len: usize = if a.len() >= b.len() {
        a.len()
    } else {
        b.len()
    };
    let mut index: usize = 0;
    while index < max_len
        invariant
            index <= max_len,
            max_len == if a@.len() >= b@.len() { a@.len() } else { b@.len() },
            (diff == 0) == (a@.len() == b@.len() && forall|j: int|
                0 <= j < index ==> byte_or_zero(a@, j) == byte_or_zero(b@, j)),
        decreases max_len - index,
    {
        let expected_byte: u8 = if index < a.len() {
            a[index]
        } else {
            0
        };
        let provided_byte: u8 = if index < b.len() {
            b[index]
        } else {
            0
        };
        let d: usize = (expected_byte ^ provided_byte) as usize;
        proof {
            lemma_xor_zero_u8(expected_byte, provided_byte);
            lemma_or_zero(diff, d);
            assert(expected_byte == byte_or_zero(a@, index as int));
            assert(provided_byte == byte_or_zero(b@, index as int));
            if (forall|j: int| 0 <= j < index ==> byte_or_zero(a@, j) == byte_or_zero(b@, j))
                && expected_byte == provided_byte {
                assert forall|j: int| 0 <= j < index + 1 implies byte_or_zero(a@, j)
                    == byte_or_zero(b@, j) by {
                    if j < index {
                    }
                }
            }
        }
        diff = diff | d;
        index = index + 1;
    }
    proof {
        if diff == 0 {
            assert forall|j: int| 0 <= j < a@.len() implies a@[j] == b@[j] by {
                assert(byte_or_zero(a@, j) == byte_or_zero(b@, j));
            }
            assert(a@ =~= b@);
        }
        if a@ == b@ {
            assert(forall|j: int| 0 <= j < index ==> byte_or_zero(a@, j) == byte_or_zero(b@, j));
        }
        vstd::utf8::encode_utf8_decode_utf8(expected@);
        vstd::utf8::encode_utf8_decode_utf8(provided@);
    }
    diff == 0
}

/// Authorized when a token is expected and the `Authorization` value carries
/// exactly that bearer token; never when no token is expected.
pub open spec fn authorized(authorization: Option<Seq<char>>, expected: Option<Seq<char>>) -> bool {
    match expected {
        Some(e) => authorization_token(authorization) == Some(e),
        None => false,
    }
}

pub fn is_authorized(authorization: Option<&str>, expected_token: Option<&str>) -> (ok: bool)
    ensures
        ok == authorized(opt_str_view(authorization), opt_str_view(expected_token)),
{
    match expected_token {
        Some(expected) => match expected_bearer_token(authorization) {
            Some(provided) => secure_token_eq(expected, provided.as_str()),
            None => false,
        },
        None => false,
    }
}


/// How a refused Discord command or relay is answered.
#[derive(Clone, Copy, Debug, PartialEq, Eq, Structural)]
pub enum CommandRejection {
    /// No finding: the session or agent was not found.
    NotFound,
    /// An allowlist refused the command.
    Forbidden,
    /// Any other finding.
    BadRequest,
}

/// A refused Discord command: not found when there is no finding, forbidden
/// when a finding's code mentions `allowlisted`, a bad request otherwise.
pub open spec fn command_rejection(findings: Seq<VulnerabilityView>) -> CommandRejection {
    if findings.len() == 0 {
        CommandRejection::NotFound
    } else if exists|i: int| 0 <= i < findings.len() && has_substring(#[trigger] findings[i].code, "allowlisted"@) {
        CommandRejection::Forbidden
    } else {
        CommandRejection::BadRequest
    }
}

/// A refused relay: not found when there is no finding, a bad request otherwise.
pub open spec fn relay_rejection(findings: Seq<VulnerabilityView>) -> CommandRejection {
    if findings.len() == 0 {
        CommandRejection::NotFound
    } else {
        CommandRejection::BadRequest
    }
}

pub fn command_rejection_for(findings: &Vec<Vulnerability>) -> (rejection: CommandRejection)
    ensures
        rejection == command_rejection(findings_view(findings@)),
{
    if findings.len() == 0 {
        return CommandRejection::NotFound;
    }
    let pattern = chars_of("allowlisted");
    let mut i: usize = 0;
    while i < findings.len()
        invariant
            i <= findings.len(),
            pattern@ == "allowlisted"@,
            forall|j: int| 0 <= j < i ==> !has_substring(#[trigger] findings_view(findings@)[j].code, "allowlisted"@),
        decreases findings.len() - i,
    {
        let code = chars_of(findings[i].code.as_str());
        if contains_chars(&code, &pattern) {
            assert(has_substring(findings_view(findings@)[i as int].code, "allowlisted"@));
            return CommandRejection::Forbidden;
        }
        i = i + 1;
    }
    CommandRejection::BadRequest
}

pub fn relay_rejection_for(findings: &Vec<Vulnerability>) -> (rejection: CommandRejection)
    ensures
        rejection == relay_rejection(findings_view(findings@)),
{
    if findings.len() == 0 {
        CommandRejection::NotFound
    } else {
        CommandRejection::BadRequest
    }
}

/// No request is authorized when no token is configured.
pub proof fn lemma_unconfigured_token_refuses_all(authorization: Option<Seq<char>>)
    ensures
        !authorized(authorization, None),
{
}

/// A request is authorized exactly when it carries the configured token as a bearer token.
pub proof fn lemma_authorized_iff_token_matches(authorization: Option<Seq<char>>, expected: Seq<char>)
    ensures
        authorized(authorization, Some(expected)) <==> authorization_token(authorization) == Some(expected),
{
}

/// The items of a comma-separated list are the pieces between its commas
/// (the pieces `str::split` gives: none holds a comma, and joined with commas
/// they give back the value), each trimmed, with the blank ones left out:
/// every non-blank piece is an item, every item is a non-blank piece, and no
/// item is empty.
pub proof fn lemma_csv_items_are_the_nonblank_pieces(value: Seq<char>)
    ensures
        crate::text::join_with(split_on(value, ','), ',') == value,
        forall|i: int, j: int|
            0 <= i < split_on(value, ',').len() && 0 <= j < split_on(value, ',')[i].len()
                ==> #[trigger] split_on(value, ',')[i][j] != ',',
        forall|i: int|
            0 <= i < split_on(value, ',').len() && trim(#[trigger] split_on(value, ',')[i]).len() > 0
                ==> csv_items(value).contains(trim(split_on(value, ',')[i])),
        forall|k: int|
            0 <= k < csv_items(value).len() ==> exists|i: int|
                0 <= i < split_on(value, ',').len() && #[trigger] csv_items(value)[k] == trim(
                    #[trigger] split_on(value, ',')[i],
                ),
        forall|k: int| 0 <= k < csv_items(value).len() ==> #[trigger] csv_items(value)[k].len() > 0,
{
    crate::text::lemma_split_on_pieces(value, ',');
    crate::text::lemma_nonblank_trimmed_members(split_on(value, ','));
    crate::text::lemma_nonblank_trimmed_not_empty(split_on(value, ','));
}

/// The items of a comma-separated list are never empty.
pub proof fn lemma_csv_items_not_blank(value: Seq<char>)
    ensures
        forall|i: int| 0 <= i < csv_items(value).len() ==> #[trigger] csv_items(value)[i].len() > 0,
{
    crate::text::lemma_nonblank_trimmed_not_empty(split_on(value, ','));
}

} // verus!
