//! The shape of a DMARC aggregate report (RFC 7489, appendix C), as senders actually write it.
//!
//! Several fields that the RFC marks mandatory are optional here, and the version is free
//! text: real reports omit or vary them. The closed vocabularies stay closed: a report that
//! uses a tag outside one of them is refused as a whole.
use vstd::prelude::*;

use crate::text::is_word;

verus! {

/// The reporting period, as seconds since the epoch.
#[derive(Debug, Clone, Copy, PartialEq, Eq, Structural)]
pub struct DateRangeType {
    pub begin: u32,
    pub end: u32,
}

/// Who sent the report, and for which period.
#[derive(Debug, Clone, PartialEq, Eq)]
pub struct ReportMetadataType {
    pub org_name: String,
    pub email: String,
    pub extra_contact_info: Option<String>,
    pub report_id: String,
    pub date_range: DateRangeType,
    pub error: Option<Vec<String>>,
}

/// The DMARC policy that the domain published.
#[derive(Debug, Clone, PartialEq, Eq)]
pub struct PolicyPublishedType {
    pub domain: String,
    pub adkim: Option<AlignmentType>,
    pub aspf: Option<AlignmentType>,
    pub p: DispositionType,
    pub sp: Option<DispositionType>,
    pub pct: u8,
    pub fo: Option<String>,
}

/// One reason for overriding the published policy.
#[derive(Debug, Clone, PartialEq, Eq)]
pub struct PolicyOverrideReason {
    pub kind: PolicyOverrideType,
    pub comment: Option<String>,
}

/// The policy as the receiver applied it.
#[derive(Debug, Clone, PartialEq, Eq)]
pub struct PolicyEvaluatedType {
    pub disposition: DispositionType,
    pub dkim: Option<DMARCResultType>,
    pub spf: Option<DMARCResultType>,
    pub reason: Option<Vec<PolicyOverrideReason>>,
}

/// An IP address, as its octets or its sixteen-bit groups.
#[derive(Debug, Clone, Copy, PartialEq, Eq)]
pub enum IpAddress {
    V4([u8; 4]),
    V6([u16; 8]),
}

/// The sending address, how many messages came from it, and what was done to them.
#[derive(Debug, Clone, PartialEq, Eq)]
pub struct RowType {
    pub source_ip: IpAddress,
    pub count: u32,
    pub policy_evaluated: PolicyEvaluatedType,
}

/// The domains that the messages claimed.
#[derive(Debug, Clone, PartialEq, Eq)]
pub struct IdentifierType {
    pub envelope_to: Option<String>,
    pub envelope_from: Option<String>,
    pub header_from: String,
}

/// One DKIM signature check.
#[derive(Debug, Clone, PartialEq, Eq)]
pub struct DKIMAuthResultType {
    pub domain: String,
    pub selector: Option<String>,
    pub result: DKIMResultType,
    pub human_result: Option<String>,
}

/// One SPF check.
#[derive(Debug, Clone, PartialEq, Eq)]
pub struct SPFAuthResultType {
    pub domain: String,
    pub scope: Option<SPFDomainScope>,
    pub result: SPFResultType,
}

/// The authentication results of a record: DKIM checks (possibly none) and SPF checks.
#[derive(Debug, Clone, PartialEq, Eq)]
pub struct AuthResultType {
    pub dkim: Option<Vec<DKIMAuthResultType>>,
    pub spf: Vec<SPFAuthResultType>,
}

/// One row of the report: a source address and one combination of results.
#[derive(Debug, Clone, PartialEq, Eq)]
pub struct RecordType {
    pub row: RowType,
    pub identifiers: IdentifierType,
    pub auth_results: AuthResultType,
}

/// A whole DMARC aggregate report.
#[allow(non_camel_case_types)]
#[derive(Debug, Clone, PartialEq, Eq)]
pub struct feedback {
    pub version: Option<String>,
    pub report_metadata: ReportMetadataType,
    pub policy_published: PolicyPublishedType,
    pub record: Vec<RecordType>,
}

// The mathematical model of the report: every string as its characters, every list as a
// sequence.

pub open spec fn opt_chars(o: Option<String>) -> Option<Seq<char>> {
    match o {
        Some(s) => Some(s@),
        None => None,
    }
}

pub open spec fn all_chars(v: Seq<String>) -> Seq<Seq<char>> {
    v.map_values(|s: String| s@)
}

pub ghost struct ReportMetadataModel {
    pub org_name: Seq<char>,
    pub email: Seq<char>,
    pub extra_contact_info: Option<Seq<char>>,
    pub report_id: Seq<char>,
    pub date_range: DateRangeType,
    pub error: Option<Seq<Seq<char>>>,
}

pub ghost struct PolicyPublishedModel {
    pub domain: Seq<char>,
    pub adkim: Option<AlignmentType>,
    pub aspf: Option<AlignmentType>,
    pub p: DispositionType,
    pub sp: Option<DispositionType>,
    pub pct: u8,
    pub fo: Option<Seq<char>>,
}

pub ghost struct PolicyOverrideReasonModel {
    pub kind: PolicyOverrideType,
    pub comment: Option<Seq<char>>,
}

pub ghost struct PolicyEvaluatedModel {
    pub disposition: DispositionType,
    pub dkim: Option<DMARCResultType>,
    pub spf: Option<DMARCResultType>,
    pub reason: Option<Seq<PolicyOverrideReasonModel>>,
}

pub ghost enum IpModel {
    V4(Seq<u8>),
    V6(Seq<u16>),
}

impl View for IpAddress {
    type V = IpModel;

    open spec fn view(&self) -> IpModel {
        match self {
            IpAddress::V4(a) => IpModel::V4(a@),
            IpAddress::V6(g) => IpModel::V6(g@),
        }
    }
}

pub ghost struct RowModel {
    pub source_ip: IpModel,
    pub count: u32,
    pub policy_evaluated: PolicyEvaluatedModel,
}

pub ghost struct IdentifierModel {
    pub envelope_to: Option<Seq<char>>,
    pub envelope_from: Option<Seq<char>>,
    pub header_from: Seq<char>,
}

pub ghost struct DKIMAuthResultModel {
    pub domain: Seq<char>,
    pub selector: Option<Seq<char>>,
    pub result: DKIMResultType,
    pub human_result: Option<Seq<char>>,
}

pub ghost struct SPFAuthResultModel {
    pub domain: Seq<char>,
    pub scope: Option<SPFDomainScope>,
    pub result: SPFResultType,
}

pub ghost struct AuthResultModel {
    pub dkim: Option<Seq<DKIMAuthResultModel>>,
    pub spf: Seq<SPFAuthResultModel>,
}

pub ghost struct RecordModel {
    pub row: RowModel,
    pub identifiers: IdentifierModel,
    pub auth_results: AuthResultModel,
}

pub ghost struct FeedbackModel {
    pub version: Option<Seq<char>>,
    pub report_metadata: ReportMetadataModel,
    pub policy_published: PolicyPublishedModel,
    pub record: Seq<RecordModel>,
}

impl View for ReportMetadataType {
    type V = ReportMetadataModel;

    open spec fn view(&self) -> ReportMetadataModel {
        ReportMetadataModel {
            org_name: self.org_name@,
            email: self.email@,
            extra_contact_info: opt_chars(self.extra_contact_info),
            report_id: self.report_id@,
            date_range: self.date_range,
            error: match self.error {
                Some(v) => Some(all_chars(v@)),
                None => None,
            },
        }
    }
}

impl View for PolicyPublishedType {
    type V = PolicyPublishedModel;

    open spec fn view(&self) -> PolicyPublishedModel {
        PolicyPublishedModel {
            domain: self.domain@,
            adkim: self.adkim,
            aspf: self.aspf,
            p: self.p,
            sp: self.sp,
            pct: self.pct,
            fo: opt_chars(self.fo),
        }
    }
}

impl View for PolicyOverrideReason {
    type V = PolicyOverrideReasonModel;

    open spec fn view(&self) -> PolicyOverrideReasonModel {
        PolicyOverrideReasonModel { kind: self.kind, comment: opt_chars(self.comment) }
    }
}

impl View for PolicyEvaluatedType {
    type V = PolicyEvaluatedModel;

    open spec fn view(&self) -> PolicyEvaluatedModel {
        PolicyEvaluatedModel {
            disposition: self.disposition,
            dkim: self.dkim,
            spf: self.spf,
            reason: match self.reason {
                Some(v) => Some(v@.map_values(|x: PolicyOverrideReason| x@)),
                None => None,
            },
        }
    }
}

impl View for RowType {
    type V = RowModel;

    open spec fn view(&self) -> RowModel {
        RowModel {
            source_ip: self.source_ip@,
            count: self.count,
            policy_evaluated: self.policy_evaluated@,
        }
    }
}

impl View for IdentifierType {
    type V = IdentifierModel;

    open spec fn view(&self) -> IdentifierModel {
        IdentifierModel {
            envelope_to: opt_chars(self.envelope_to),
            envelope_from: opt_chars(self.envelope_from),
            header_from: self.header_from@,
        }
    }
}

impl View for DKIMAuthResultType {
    type V = DKIMAuthResultModel;

    open spec fn view(&self) -> DKIMAuthResultModel {
        DKIMAuthResultModel {
            domain: self.domain@,
            selector: opt_chars(self.selector),
            result: self.result,
            human_result: opt_chars(self.human_result),
        }
    }
}

impl View for SPFAuthResultType {
    type V = SPFAuthResultModel;

    open spec fn view(&self) -> SPFAuthResultModel {
        SPFAuthResultModel { domain: self.domain@, scope: self.scope, result: self.result }
    }
}

impl View for AuthResultType {
    type V = AuthResultModel;

    open spec fn view(&self) -> AuthResultModel {
        AuthResultModel {
            dkim: match self.dkim {
                Some(v) => Some(v@.map_values(|x: DKIMAuthResultType| x@)),
                None => None,
            },
            spf: self.spf@.map_values(|x: SPFAuthResultType| x@),
        }
    }
}

impl View for RecordType {
    type V = RecordModel;

    open spec fn view(&self) -> RecordModel {
        RecordModel {
            row: self.row@,
            identifiers: self.identifiers@,
            auth_results: self.auth_results@,
        }
    }
}

impl View for feedback {
    type V = FeedbackModel;

    open spec fn view(&self) -> FeedbackModel {
        FeedbackModel {
            version: opt_chars(self.version),
            report_metadata: self.report_metadata@,
            policy_published: self.policy_published@,
            record: self.record@.map_values(|x: RecordType| x@),
        }
    }
}

/// Identifier alignment mode.
#[allow(non_camel_case_types)]
#[derive(Debug, Clone, Copy, PartialEq, Eq, Structural)]
pub enum AlignmentType {
    /// Relaxed
    r,
    /// Strict
    s,
}

impl AlignmentType {
    /// The value that the tag `s` names, if it is one of the allowed tags.
    pub open spec fn spec_from_tag(s: Seq<char>) -> Option<AlignmentType> {
        if s == "r"@ {
            Some(AlignmentType::r)
        } else if s == "s"@ {
            Some(AlignmentType::s)
        } else {
            None
        }
    }

    /// Reads the tag `s`; any text outside the allowed tags is refused.
    pub fn from_tag(s: &str) -> (r: Option<AlignmentType>)
        ensures
            r == AlignmentType::spec_from_tag(s@),
    {
        if is_word(s, "r") {
            Some(AlignmentType::r)
        } else if is_word(s, "s") {
            Some(AlignmentType::s)
        } else {
            None
        }
    }
}

/// What a receiver should do with mail that fails DMARC.
#[allow(non_camel_case_types)]
#[derive(Debug, Clone, Copy, PartialEq, Eq, Structural)]
pub enum DispositionType {
    /// No preference on how failed mail is handled.
    none,
    /// The message should be quarantined, usually placed in the spam folder.
    quarantine,
    /// The message should be rejected.
    reject,
}

impl DispositionType {
    /// The value that the tag `s` names, if it is one of the allowed tags.
    pub open spec fn spec_from_tag(s: Seq<char>) -> Option<DispositionType> {
        if s == "none"@ {
            Some(DispositionType::none)
        } else if s == "quarantine"@ {
            Some(DispositionType::quarantine)
        } else if s == "reject"@ {
            Some(DispositionType::reject)
        } else {
            None
        }
    }

    /// Reads the tag `s`; any text outside the allowed tags is refused.
    pub fn from_tag(s: &str) -> (r: Option<DispositionType>)
        ensures
            r == DispositionType::spec_from_tag(s@),
    {
        if is_word(s, "none") {
            Some(DispositionType::none)
        } else if is_word(s, "quarantine") {
            Some(DispositionType::quarantine)
        } else if is_word(s, "reject") {
            Some(DispositionType::reject)
        } else {
            None
        }
    }
}

/// A pass/fail summary of one mechanism as DMARC evaluated it.
#[allow(non_camel_case_types)]
#[derive(Debug, Clone, Copy, PartialEq, Eq, Structural)]
pub enum DMARCResultType {
    pass,
    fail,
}

impl DMARCResultType {
    /// The value that the tag `s` names, if it is one of the allowed tags.
    pub open spec fn spec_from_tag(s: Seq<char>) -> Option<DMARCResultType> {
        if s == "pass"@ {
            Some(DMARCResultType::pass)
        } else if s == "fail"@ {
            Some(DMARCResultType::fail)
        } else {
            None
        }
    }

    /// Reads the tag `s`; any text outside the allowed tags is refused.
    pub fn from_tag(s: &str) -> (r: Option<DMARCResultType>)
        ensures
            r == DMARCResultType::spec_from_tag(s@),
    {
        if is_word(s, "pass") {
            Some(DMARCResultType::pass)
        } else if is_word(s, "fail") {
            Some(DMARCResultType::fail)
        } else {
            None
        }
    }
}

/// Why a receiver applied a disposition other than the published one.
#[allow(non_camel_case_types)]
#[derive(Debug, Clone, Copy, PartialEq, Eq, Structural)]
pub enum PolicyOverrideType {
    forwarded,
    sampled_out,
    trusted_forwarder,
    mailing_list,
    local_policy,
    other,
}

impl PolicyOverrideType {
    /// The value that the tag `s` names, if it is one of the allowed tags.
    pub open spec fn spec_from_tag(s: Seq<char>) -> Option<PolicyOverrideType> {
        if s == "forwarded"@ {
            Some(PolicyOverrideType::forwarded)
        } else if s == "sampled_out"@ {
            Some(PolicyOverrideType::sampled_out)
        } else if s == "trusted_forwarder"@ {
            Some(PolicyOverrideType::trusted_forwarder)
        } else if s == "mailing_list"@ {
            Some(PolicyOverrideType::mailing_list)
        } else if s == "local_policy"@ {
            Some(PolicyOverrideType::local_policy)
        } else if s == "other"@ {
            Some(PolicyOverrideType::other)
        } else {
            None
        }
    }

    /// Reads the tag `s`; any text outside the allowed tags is refused.
    pub fn from_tag(s: &str) -> (r: Option<PolicyOverrideType>)
        ensures
            r == PolicyOverrideType::spec_from_tag(s@),
    {
        if is_word(s, "forwarded") {
            Some(PolicyOverrideType::forwarded)
        } else if is_word(s, "sampled_out") {
            Some(PolicyOverrideType::sampled_out)
        } else if is_word(s, "trusted_forwarder") {
            Some(PolicyOverrideType::trusted_forwarder)
        } else if is_word(s, "mailing_list") {
            Some(PolicyOverrideType::mailing_list)
        } else if is_word(s, "local_policy") {
            Some(PolicyOverrideType::local_policy)
        } else if is_word(s, "other") {
            Some(PolicyOverrideType::other)
        } else {
            None
        }
    }
}

/// The outcome of one DKIM signature check.
#[allow(non_camel_case_types)]
#[derive(Debug, Clone, Copy, PartialEq, Eq, Structural)]
pub enum DKIMResultType {
    none,
    pass,
    fail,
    policy,
    neutral,
    temperror,
    permerror,
}

impl DKIMResultType {
    /// The value that the tag `s` names, if it is one of the allowed tags.
    pub open spec fn spec_from_tag(s: Seq<char>) -> Option<DKIMResultType> {
        if s == "none"@ {
            Some(DKIMResultType::none)
        } else if s == "pass"@ {
            Some(DKIMResultType::pass)
        } else if s == "fail"@ {
            Some(DKIMResultType::fail)
        } else if s == "policy"@ {
            Some(DKIMResultType::policy)
        } else if s == "neutral"@ {
            Some(DKIMResultType::neutral)
        } else if s == "temperror"@ {
            Some(DKIMResultType::temperror)
        } else if s == "permerror"@ {
            Some(DKIMResultType::permerror)
        } else {
            None
        }
    }

    /// Reads the tag `s`; any text outside the allowed tags is refused.
    pub fn from_tag(s: &str) -> (r: Option<DKIMResultType>)
        ensures
            r == DKIMResultType::spec_from_tag(s@),
    {
        if is_word(s, "none") {
            Some(DKIMResultType::none)
        } else if is_word(s, "pass") {
            Some(DKIMResultType::pass)
        } else if is_word(s, "fail") {
            Some(DKIMResultType::fail)
        } else if is_word(s, "policy") {
            Some(DKIMResultType::policy)
        } else if is_word(s, "neutral") {
            Some(DKIMResultType::neutral)
        } else if is_word(s, "temperror") {
            Some(DKIMResultType::temperror)
        } else if is_word(s, "permerror") {
            Some(DKIMResultType::permerror)
        } else {
            None
        }
    }
}

/// Which identity an SPF check was made on.
#[allow(non_camel_case_types)]
#[derive(Debug, Clone, Copy, PartialEq, Eq, Structural)]
pub enum SPFDomainScope {
    helo,
    mfrom,
}

impl SPFDomainScope {
    /// The value that the tag `s` names, if it is one of the allowed tags.
    pub open spec fn spec_from_tag(s: Seq<char>) -> Option<SPFDomainScope> {
        if s == "helo"@ {
            Some(SPFDomainScope::helo)
        } else if s == "mfrom"@ {
            Some(SPFDomainScope::mfrom)
        } else {
            None
        }
    }

    /// Reads the tag `s`; any text outside the allowed tags is refused.
    pub fn from_tag(s: &str) -> (r: Option<SPFDomainScope>)
        ensures
            r == SPFDomainScope::spec_from_tag(s@),
    {
        if is_word(s, "helo") {
            Some(SPFDomainScope::helo)
        } else if is_word(s, "mfrom") {
            Some(SPFDomainScope::mfrom)
        } else {
            None
        }
    }
}

/// The outcome of one SPF check.
#[allow(non_camel_case_types)]
#[derive(Debug, Clone, Copy, PartialEq, Eq, Structural)]
pub enum SPFResultType {
    none,
    neutral,
    pass,
    fail,
    softfail,
    temperror,
    permerror,
}

impl SPFResultType {
    /// The value that the tag `s` names, if it is one of the allowed tags.
    pub open spec fn spec_from_tag(s: Seq<char>) -> Option<SPFResultType> {
        if s == "none"@ {
            Some(SPFResultType::none)
        } else if s == "neutral"@ {
            Some(SPFResultType::neutral)
        } else if s == "pass"@ {
            Some(SPFResultType::pass)
        } else if s == "fail"@ {
            Some(SPFResultType::fail)
        } else if s == "softfail"@ {
            Some(SPFResultType::softfail)
        } else if s == "temperror"@ {
            Some(SPFResultType::temperror)
        } else if s == "permerror"@ {
            Some(SPFResultType::permerror)
        } else {
            None
        }
    }

    /// Reads the tag `s`; any text outside the allowed tags is refused.
    pub fn from_tag(s: &str) -> (r: Option<SPFResultType>)
        ensures
            r == SPFResultType::spec_from_tag(s@),
    {
        if is_word(s, "none") {
            Some(SPFResultType::none)
        } else if is_word(s, "neutral") {
            Some(SPFResultType::neutral)
        } else if is_word(s, "pass") {
            Some(SPFResultType::pass)
        } else if is_word(s, "fail") {
            Some(SPFResultType::fail)
        } else if is_word(s, "softfail") {
            Some(SPFResultType::softfail)
        } else if is_word(s, "temperror") {
            Some(SPFResultType::temperror)
        } else if is_word(s, "permerror") {
            Some(SPFResultType::permerror)
        } else {
            None
        }
    }
}
} // verus!
