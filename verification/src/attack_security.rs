use vstd::prelude::*;

use crate::discord::{DiscordContext, DiscordContextView};
use crate::session::{HunterConfig, HunterConfigView};
use crate::text::{chars_of, contains_text, texts, trim, trim_bounds};
use crate::transaction::{Stablecoin, StablecoinTransaction, TransactionView};
use crate::vulnerability::{finding, findings_view, Vulnerability, VulnerabilityLevel, VulnerabilityView};

verus! {

/// The largest relay message, in bytes of UTF-8, that the relay accepts.
pub const MAX_MESSAGE_BYTES: usize = 4000;

/// An allowlist rejects an id when it is not empty and does not hold the id;
/// an empty allowlist admits everything.
pub open spec fn allowlist_rejects(allowed: Seq<Seq<char>>, id: Seq<char>) -> bool {
    allowed.len() > 0 && !allowed.contains(id)
}

pub open spec fn guild_finding() -> VulnerabilityView {
    finding(
        "guild_not_allowlisted"@,
        "Discord guild is not allowlisted for Hunter session intake."@,
        VulnerabilityLevel::Critical,
    )
}

pub open spec fn channel_finding() -> VulnerabilityView {
    finding(
        "channel_not_allowlisted"@,
        "Discord channel is not allowlisted for Hunter session intake."@,
        VulnerabilityLevel::High,
    )
}

pub open spec fn empty_message_finding() -> VulnerabilityView {
    finding("empty_message"@, "Empty relay messages are rejected."@, VulnerabilityLevel::Medium)
}

pub open spec fn large_message_finding() -> VulnerabilityView {
    finding(
        "message_too_large"@,
        "Relay messages above 4000 characters are rejected."@,
        VulnerabilityLevel::High,
    )
}

pub open spec fn usdc_finding() -> VulnerabilityView {
    finding(
        "usdc_high_alert"@,
        "USDC transfers are always held for operator review."@,
        VulnerabilityLevel::High,
    )
}

pub open spec fn destination_finding() -> VulnerabilityView {
    finding(
        "unapproved_destination"@,
        "Destination wallet is not on the approved release allowlist."@,
        VulnerabilityLevel::Critical,
    )
}

/// `seq![f]` when `flagged`, else nothing.
pub open spec fn finding_if(flagged: bool, f: VulnerabilityView) -> Seq<VulnerabilityView> {
    if flagged {
        seq![f]
    } else {
        Seq::empty()
    }
}

/// The findings for a Discord context: the guild check, then the channel check.
pub open spec fn context_findings(
    context: DiscordContextView,
    config: HunterConfigView,
) -> Seq<VulnerabilityView> {
    finding_if(allowlist_rejects(config.allowed_guilds, context.guild_id), guild_finding())
        + finding_if(
        allowlist_rejects(config.allowed_channels, context.channel_id),
        channel_finding(),
    )
}

/// The findings for a relay message: blank (nothing but white space), then
/// longer than the limit in UTF-8 bytes.
pub open spec fn message_findings(body: Seq<char>) -> Seq<VulnerabilityView> {
    finding_if(trim(body).len() == 0, empty_message_finding()) + finding_if(
        vstd::utf8::encode_utf8(body).len() > MAX_MESSAGE_BYTES,
        large_message_finding(),
    )
}

/// The findings for a transfer: every USDC transfer, then every transfer to a
/// destination that is not approved.
pub open spec fn transaction_findings(
    approved: Seq<Seq<char>>,
    tx: TransactionView,
) -> Seq<VulnerabilityView> {
    finding_if(tx.asset == Stablecoin::Usdc, usdc_finding()) + finding_if(
        !approved.contains(tx.destination_wallet),
        destination_finding(),
    )
}

fn push_if(findings: &mut Vec<Vulnerability>, flagged: bool, v: Vulnerability)
    ensures
        findings_view(final(findings)@) == findings_view(old(findings)@) + finding_if(flagged, v@),
{
    if flagged {
        findings.push(v);
    }
    assert(findings_view(findings@) =~= findings_view(old(findings)@) + finding_if(flagged, v@));
}

/// Screens Discord commands before they reach a Hunter session.
#[derive(Clone, Debug, Default)]
pub struct CommandSafetyInspector;

impl CommandSafetyInspector {
    pub fn new() -> Self {
        CommandSafetyInspector
    }

    pub fn inspect_context(&self, context: &DiscordContext, config: &HunterConfig) -> (findings:
        Vec<Vulnerability>)
        ensures
            findings_view(findings@) == context_findings(context@, config@),
    {
        let mut findings: Vec<Vulnerability> = Vec::new();
        let guild_rejected = config.allowed_guilds.len() > 0 && !contains_text(
            &config.allowed_guilds,
            &context.guild_id,
        );
        if guild_rejected {
            push_if(
                &mut findings,
                true,
                Vulnerability::new(
                    "guild_not_allowlisted",
                    "Discord guild is not allowlisted for Hunter session intake.",
                    VulnerabilityLevel::Critical,
                ),
            );
        }
        assert(findings_view(findings@) =~= finding_if(
            allowlist_rejects(config@.allowed_guilds, context@.guild_id),
            guild_finding(),
        ));
        let channel_rejected = config.allowed_channels.len() > 0 && !contains_text(
            &config.allowed_channels,
            &context.channel_id,
        );
        if channel_rejected {
            push_if(
                &mut findings,
                true,
                Vulnerability::new(
                    "channel_not_allowlisted",
                    "Discord channel is not allowlisted for Hunter session intake.",
                    VulnerabilityLevel::High,
                ),
            );
        }
        assert(findings_view(findings@) =~= context_findings(context@, config@));
        findings
    }

    pub fn inspect_message(&self, body: &str) -> (findings: Vec<Vulnerability>)
        ensures
            findings_view(findings@) == message_findings(body@),
    {
        let mut findings: Vec<Vulnerability> = Vec::new();
        let chars = chars_of(body);
        let (start, end) = trim_bounds(&chars);
        if start == end {
            findings.push(
                Vulnerability::new(
                    "empty_message",
                    "Empty relay messages are rejected.",
                    VulnerabilityLevel::Medium,
                ),
            );
        }
        assert(findings_view(findings@) =~= finding_if(
            trim(body@).len() == 0,
            empty_message_finding(),
        ));
        if body.as_bytes().len() > MAX_MESSAGE_BYTES {
            findings.push(
                Vulnerability::new(
                    "message_too_large",
                    "Relay messages above 4000 characters are rejected.",
                    VulnerabilityLevel::High,
                ),
            );
        }
        assert(findings_view(findings@) =~= message_findings(body@));
        findings
    }
}

/// Flags transfers that an operator must review before release.
#[derive(Clone, Debug)]
pub struct KeyCompromiseDetector {
    pub approved_destinations: Vec<String>,
}

impl KeyCompromiseDetector {
    pub fn new(approved_destinations: Vec<String>) -> (detector: Self)
        ensures
            detector.approved_destinations == approved_destinations,
    {
        KeyCompromiseDetector { approved_destinations }
    }

    pub fn inspect(&self, transaction: &StablecoinTransaction) -> (findings: Vec<Vulnerability>)
        ensures
            findings_view(findings@) == transaction_findings(
                texts(self.approved_destinations@),
                transaction@,
            ),
    {
        let mut findings: Vec<Vulnerability> = Vec::new();
        if transaction.asset == Stablecoin::Usdc {
            findings.push(
                Vulnerability::new(
                    "usdc_high_alert",
                    "USDC transfers are always held for operator review.",
                    VulnerabilityLevel::High,
                ),
            );
        }
        assert(findings_view(findings@) =~= finding_if(
            transaction@.asset == Stablecoin::Usdc,
            usdc_finding(),
        ));
        if !contains_text(&self.approved_destinations, &transaction.destination_wallet) {
            findings.push(
                Vulnerability::new(
                    "unapproved_destination",
                    "Destination wallet is not on the approved release allowlist.",
                    VulnerabilityLevel::Critical,
                ),
            );
        }
        assert(findings_view(findings@) =~= transaction_findings(
            texts(self.approved_destinations@),
            transaction@,
        ));
        findings
    }
}

/// Every USDC transfer is flagged for review, whatever its destination.
pub proof fn lemma_usdc_always_flagged(approved: Seq<Seq<char>>, tx: TransactionView)
    requires
        tx.asset == Stablecoin::Usdc,
    ensures
        transaction_findings(approved, tx).len() > 0,
        transaction_findings(approved, tx)[0] == usdc_finding(),
{
}

/// Every transfer to a destination off the allowlist is flagged for review.
pub proof fn lemma_unapproved_destination_flagged(approved: Seq<Seq<char>>, tx: TransactionView)
    requires
        !approved.contains(tx.destination_wallet),
    ensures
        transaction_findings(approved, tx).len() > 0,
        transaction_findings(approved, tx).last() == destination_finding(),
{
}

/// A USDT transfer to an approved destination raises no finding.
pub proof fn lemma_approved_usdt_is_clean(approved: Seq<Seq<char>>, tx: TransactionView)
    requires
        tx.asset == Stablecoin::Usdt,
        approved.contains(tx.destination_wallet),
    ensures
        transaction_findings(approved, tx).len() == 0,
{
}

} // verus!
