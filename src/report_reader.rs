//! Reads a report from the element tree of its document.
use vstd::prelude::*;

use crate::aggregate_report::{
    AlignmentType, AuthResultModel, AuthResultType, DKIMAuthResultModel, DKIMAuthResultType,
    DKIMResultType, DMARCResultType, DateRangeType, DispositionType, FeedbackModel,
    IdentifierModel, IdentifierType, PolicyEvaluatedModel, PolicyEvaluatedType,
    PolicyOverrideReason, PolicyOverrideReasonModel, PolicyOverrideType, PolicyPublishedModel,
    PolicyPublishedType, RecordModel, RecordType, ReportMetadataModel, ReportMetadataType,
    RowModel, RowType, SPFAuthResultModel, SPFAuthResultType, SPFDomainScope, SPFResultType,
    feedback, all_chars,
};
use crate::document::{element_model, Element, ElementModel};
use crate::ip::{ip_address_of, ip_of};
use crate::text::is_word;
use crate::schema::{
    child, children, find_child, find_children, leaf_text, lemma_read_all_len, lemma_read_all_prefix, lemma_read_all_refuses, optional_list,
    optional_tag, optional_text, optional_text_of, read_all, required_child, required_number,
    required_number_of, required_tag, required_text, required_text_of, text_of, missing_element, not_text, refused_value, unexpected_root,
};

verus! {

pub open spec fn read_leaf() -> spec_fn(ElementModel) -> Option<Seq<char>> {
    |c: ElementModel| leaf_text(c)
}

pub open spec fn read_date_range() -> spec_fn(ElementModel) -> Option<DateRangeType> {
    |c: ElementModel| date_range_model(c)
}

pub open spec fn read_metadata() -> spec_fn(ElementModel) -> Option<ReportMetadataModel> {
    |c: ElementModel| metadata_model(c)
}

pub open spec fn read_policy_published() -> spec_fn(ElementModel) -> Option<PolicyPublishedModel> {
    |c: ElementModel| policy_published_model(c)
}

pub open spec fn read_reason() -> spec_fn(ElementModel) -> Option<PolicyOverrideReasonModel> {
    |c: ElementModel| reason_model(c)
}

pub open spec fn read_policy_evaluated() -> spec_fn(ElementModel) -> Option<PolicyEvaluatedModel> {
    |c: ElementModel| policy_evaluated_model(c)
}

pub open spec fn read_row() -> spec_fn(ElementModel) -> Option<RowModel> {
    |c: ElementModel| row_model(c)
}

pub open spec fn read_identifiers() -> spec_fn(ElementModel) -> Option<IdentifierModel> {
    |c: ElementModel| identifier_model(c)
}

pub open spec fn read_dkim() -> spec_fn(ElementModel) -> Option<DKIMAuthResultModel> {
    |c: ElementModel| dkim_model(c)
}

pub open spec fn read_spf() -> spec_fn(ElementModel) -> Option<SPFAuthResultModel> {
    |c: ElementModel| spf_model(c)
}

pub open spec fn read_auth_results() -> spec_fn(ElementModel) -> Option<AuthResultModel> {
    |c: ElementModel| auth_result_model(c)
}

pub open spec fn read_record() -> spec_fn(ElementModel) -> Option<RecordModel> {
    |c: ElementModel| record_model(c)
}

/// `<date_range>`: `begin` and `end`, both required.
pub open spec fn date_range_model(e: ElementModel) -> Option<DateRangeType> {
    let begin = required_number(e, "begin"@, u32::MAX as nat);
    let end = required_number(e, "end"@, u32::MAX as nat);
    if begin is Some && end is Some {
        Some(DateRangeType { begin: begin->0 as u32, end: end->0 as u32 })
    } else {
        None
    }
}

/// `<report_metadata>`: contact details may be missing, and so may the list of errors.
pub open spec fn metadata_model(e: ElementModel) -> Option<ReportMetadataModel> {
    let org_name = required_text(e, "org_name"@);
    let email = required_text(e, "email"@);
    let extra = optional_text(e, "extra_contact_info"@);
    let report_id = required_text(e, "report_id"@);
    let date_range = required_child(e, "date_range"@, read_date_range());
    let error = optional_list(e, "error"@, read_leaf());
    if org_name is Some && email is Some && extra is Some && report_id is Some && date_range is Some
        && error is Some {
        Some(
            ReportMetadataModel {
                org_name: org_name->0,
                email: email->0,
                extra_contact_info: extra->0,
                report_id: report_id->0,
                date_range: date_range->0,
                error: error->0,
            },
        )
    } else {
        None
    }
}

/// `<policy_published>`: the domain, the disposition and the percentage are required.
pub open spec fn policy_published_model(e: ElementModel) -> Option<PolicyPublishedModel> {
    let domain = required_text(e, "domain"@);
    let adkim = optional_tag(e, "adkim"@, |s: Seq<char>| AlignmentType::spec_from_tag(s));
    let aspf = optional_tag(e, "aspf"@, |s: Seq<char>| AlignmentType::spec_from_tag(s));
    let p = required_tag(e, "p"@, |s: Seq<char>| DispositionType::spec_from_tag(s));
    let sp = optional_tag(e, "sp"@, |s: Seq<char>| DispositionType::spec_from_tag(s));
    let pct = required_number(e, "pct"@, u8::MAX as nat);
    let fo = optional_text(e, "fo"@);
    if domain is Some && adkim is Some && aspf is Some && p is Some && sp is Some && pct is Some
        && fo is Some {
        Some(
            PolicyPublishedModel {
                domain: domain->0,
                adkim: adkim->0,
                aspf: aspf->0,
                p: p->0,
                sp: sp->0,
                pct: pct->0 as u8,
                fo: fo->0,
            },
        )
    } else {
        None
    }
}

/// `<reason>`: a required `type` and an optional comment.
pub open spec fn reason_model(e: ElementModel) -> Option<PolicyOverrideReasonModel> {
    let kind = required_tag(e, "type"@, |s: Seq<char>| PolicyOverrideType::spec_from_tag(s));
    let comment = optional_text(e, "comment"@);
    if kind is Some && comment is Some {
        Some(PolicyOverrideReasonModel { kind: kind->0, comment: comment->0 })
    } else {
        None
    }
}

/// `<policy_evaluated>`: the disposition is required.
pub open spec fn policy_evaluated_model(e: ElementModel) -> Option<PolicyEvaluatedModel> {
    let disposition = required_tag(
        e,
        "disposition"@,
        |s: Seq<char>| DispositionType::spec_from_tag(s),
    );
    let dkim = optional_tag(e, "dkim"@, |s: Seq<char>| DMARCResultType::spec_from_tag(s));
    let spf = optional_tag(e, "spf"@, |s: Seq<char>| DMARCResultType::spec_from_tag(s));
    let reason = optional_list(e, "reason"@, read_reason());
    if disposition is Some && dkim is Some && spf is Some && reason is Some {
        Some(
            PolicyEvaluatedModel {
                disposition: disposition->0,
                dkim: dkim->0,
                spf: spf->0,
                reason: reason->0,
            },
        )
    } else {
        None
    }
}

/// `<row>`: all three parts are required.
pub open spec fn row_model(e: ElementModel) -> Option<RowModel> {
    let source_ip = match required_text(e, "source_ip"@) {
        Some(t) => ip_of(t),
        None => None,
    };
    let count = required_number(e, "count"@, u32::MAX as nat);
    let policy_evaluated = required_child(e, "policy_evaluated"@, read_policy_evaluated());
    if source_ip is Some && count is Some && policy_evaluated is Some {
        Some(
            RowModel {
                source_ip: source_ip->0,
                count: count->0 as u32,
                policy_evaluated: policy_evaluated->0,
            },
        )
    } else {
        None
    }
}

/// `<identifiers>`: only `header_from` is required.
pub open spec fn identifier_model(e: ElementModel) -> Option<IdentifierModel> {
    let envelope_to = optional_text(e, "envelope_to"@);
    let envelope_from = optional_text(e, "envelope_from"@);
    let header_from = required_text(e, "header_from"@);
    if envelope_to is Some && envelope_from is Some && header_from is Some {
        Some(
            IdentifierModel {
                envelope_to: envelope_to->0,
                envelope_from: envelope_from->0,
                header_from: header_from->0,
            },
        )
    } else {
        None
    }
}

/// `<dkim>` among the authentication results.
pub open spec fn dkim_model(e: ElementModel) -> Option<DKIMAuthResultModel> {
    let domain = required_text(e, "domain"@);
    let selector = optional_text(e, "selector"@);
    let result = required_tag(e, "result"@, |s: Seq<char>| DKIMResultType::spec_from_tag(s));
    let human_result = optional_text(e, "human_result"@);
    if domain is Some && selector is Some && result is Some && human_result is Some {
        Some(
            DKIMAuthResultModel {
                domain: domain->0,
                selector: selector->0,
                result: result->0,
                human_result: human_result->0,
            },
        )
    } else {
        None
    }
}

/// `<spf>` among the authentication results.
pub open spec fn spf_model(e: ElementModel) -> Option<SPFAuthResultModel> {
    let domain = required_text(e, "domain"@);
    let scope = optional_tag(e, "scope"@, |s: Seq<char>| SPFDomainScope::spec_from_tag(s));
    let result = required_tag(e, "result"@, |s: Seq<char>| SPFResultType::spec_from_tag(s));
    if domain is Some && scope is Some && result is Some {
        Some(SPFAuthResultModel { domain: domain->0, scope: scope->0, result: result->0 })
    } else {
        None
    }
}

/// `<auth_results>`: DKIM results may be missing; at least one SPF result is required.
pub open spec fn auth_result_model(e: ElementModel) -> Option<AuthResultModel> {
    let dkim = optional_list(e, "dkim"@, read_dkim());
    let spf_found = children(e, "spf"@);
    let spf = read_all(spf_found, read_spf());
    if dkim is Some && spf_found.len() > 0 && spf is Some {
        Some(AuthResultModel { dkim: dkim->0, spf: spf->0 })
    } else {
        None
    }
}

/// `<record>`: all three parts are required.
pub open spec fn record_model(e: ElementModel) -> Option<RecordModel> {
    let row = required_child(e, "row"@, read_row());
    let identifiers = required_child(e, "identifiers"@, read_identifiers());
    let auth_results = required_child(e, "auth_results"@, read_auth_results());
    if row is Some && identifiers is Some && auth_results is Some {
        Some(
            RecordModel {
                row: row->0,
                identifiers: identifiers->0,
                auth_results: auth_results->0,
            },
        )
    } else {
        None
    }
}

/// The report held by the root element, which must be `<feedback>`: the version may be missing, the
/// metadata and the published policy are required, and there may be any number of records.
pub open spec fn feedback_model(e: ElementModel) -> Option<FeedbackModel> {
    let version = optional_text(e, "version"@);
    let report_metadata = required_child(e, "report_metadata"@, read_metadata());
    let policy_published = required_child(e, "policy_published"@, read_policy_published());
    let record = read_all(children(e, "record"@), read_record());
    if e.name == "feedback"@ && version is Some && report_metadata is Some && policy_published is Some
        && record is Some {
        Some(
            FeedbackModel {
                version: version->0,
                report_metadata: report_metadata->0,
                policy_published: policy_published->0,
                record: record->0,
            },
        )
    } else {
        None
    }
}

/// A tag outside its closed vocabulary is never read as a default: the field, and so the
/// element that holds it, is refused, whether the field is required or optional.
pub proof fn lemma_unknown_tag_refused<T>(
    e: ElementModel,
    name: Seq<char>,
    read: spec_fn(Seq<char>) -> Option<T>,
    x: Seq<char>,
)
    requires
        required_text(e, name) == Some(x),
        read(x) is None,
    ensures
        required_tag(e, name, read) is None,
        optional_tag(e, name, read) is None,
{
}

/// A published disposition outside `none`, `quarantine` and `reject` refuses the whole
/// report.
pub proof fn lemma_unknown_disposition_refused(root: ElementModel, policy: ElementModel, x: Seq<char>)
    requires
        child(root, "policy_published"@) == Some(policy),
        required_text(policy, "p"@) == Some(x),
        DispositionType::spec_from_tag(x) is None,
    ensures
        feedback_model(root) is None,
{
    lemma_unknown_tag_refused(policy, "p"@, |s: Seq<char>| DispositionType::spec_from_tag(s), x);
}

/// A disposition outside the vocabulary in the evaluated policy of any record refuses the
/// whole report.
pub proof fn lemma_unknown_evaluated_disposition_refused(
    root: ElementModel,
    i: int,
    row: ElementModel,
    evaluated: ElementModel,
    x: Seq<char>,
)
    requires
        0 <= i < children(root, "record"@).len(),
        child(children(root, "record"@)[i], "row"@) == Some(row),
        child(row, "policy_evaluated"@) == Some(evaluated),
        required_text(evaluated, "disposition"@) == Some(x),
        DispositionType::spec_from_tag(x) is None,
    ensures
        feedback_model(root) is None,
{
    lemma_unknown_tag_refused(
        evaluated,
        "disposition"@,
        |s: Seq<char>| DispositionType::spec_from_tag(s),
        x,
    );
    assert(policy_evaluated_model(evaluated) is None);
    assert(row_model(row) is None);
    assert(record_model(children(root, "record"@)[i]) is None);
    lemma_read_all_refuses(children(root, "record"@), read_record(), i);
}

/// Every optional field that the document leaves out reads as unset (`None`), never as a
/// default value, in whichever part of the report it stands.
pub proof fn lemma_absent_optional_unset(e: ElementModel)
    ensures
        feedback_model(e) is Some && child(e, "version"@) is None ==> feedback_model(e)->0.version
            is None,
        metadata_model(e) is Some && child(e, "extra_contact_info"@) is None
            ==> metadata_model(e)->0.extra_contact_info is None,
        metadata_model(e) is Some && children(e, "error"@).len() == 0 ==> metadata_model(
            e,
        )->0.error is None,
        policy_published_model(e) is Some && child(e, "adkim"@) is None
            ==> policy_published_model(e)->0.adkim is None,
        policy_published_model(e) is Some && child(e, "aspf"@) is None
            ==> policy_published_model(e)->0.aspf is None,
        policy_published_model(e) is Some && child(e, "sp"@) is None ==> policy_published_model(
            e,
        )->0.sp is None,
        policy_published_model(e) is Some && child(e, "fo"@) is None ==> policy_published_model(
            e,
        )->0.fo is None,
        policy_evaluated_model(e) is Some && child(e, "dkim"@) is None
            ==> policy_evaluated_model(e)->0.dkim is None,
        policy_evaluated_model(e) is Some && child(e, "spf"@) is None
            ==> policy_evaluated_model(e)->0.spf is None,
        policy_evaluated_model(e) is Some && children(e, "reason"@).len() == 0
            ==> policy_evaluated_model(e)->0.reason is None,
        reason_model(e) is Some && child(e, "comment"@) is None ==> reason_model(e)->0.comment
            is None,
        identifier_model(e) is Some && child(e, "envelope_to"@) is None ==> identifier_model(
            e,
        )->0.envelope_to is None,
        identifier_model(e) is Some && child(e, "envelope_from"@) is None ==> identifier_model(
            e,
        )->0.envelope_from is None,
        auth_result_model(e) is Some && children(e, "dkim"@).len() == 0 ==> auth_result_model(
            e,
        )->0.dkim is None,
        dkim_model(e) is Some && child(e, "selector"@) is None ==> dkim_model(e)->0.selector
            is None,
        dkim_model(e) is Some && child(e, "human_result"@) is None ==> dkim_model(
            e,
        )->0.human_result is None,
        spf_model(e) is Some && child(e, "scope"@) is None ==> spf_model(e)->0.scope is None,
{
}

/// The text of the child `name`, where it holds only text.
pub open spec fn text_at(e: ElementModel, name: Seq<char>) -> Seq<char> {
    required_text(e, name)->0
}

/// A field of a closed vocabulary that holds any other text refuses the part of the report
/// that holds it: no field is ever read as a default variant.
pub proof fn lemma_unknown_tags_refused(e: ElementModel)
    ensures
        required_text(e, "adkim"@) is Some && AlignmentType::spec_from_tag(text_at(e, "adkim"@))
            is None ==> policy_published_model(e) is None,
        required_text(e, "aspf"@) is Some && AlignmentType::spec_from_tag(text_at(e, "aspf"@))
            is None ==> policy_published_model(e) is None,
        required_text(e, "p"@) is Some && DispositionType::spec_from_tag(text_at(e, "p"@)) is None
            ==> policy_published_model(e) is None,
        required_text(e, "sp"@) is Some && DispositionType::spec_from_tag(text_at(e, "sp"@))
            is None ==> policy_published_model(e) is None,
        required_text(e, "disposition"@) is Some && DispositionType::spec_from_tag(
            text_at(e, "disposition"@),
        ) is None ==> policy_evaluated_model(e) is None,
        required_text(e, "dkim"@) is Some && DMARCResultType::spec_from_tag(text_at(e, "dkim"@))
            is None ==> policy_evaluated_model(e) is None,
        required_text(e, "spf"@) is Some && DMARCResultType::spec_from_tag(text_at(e, "spf"@))
            is None ==> policy_evaluated_model(e) is None,
        required_text(e, "type"@) is Some && PolicyOverrideType::spec_from_tag(
            text_at(e, "type"@),
        ) is None ==> reason_model(e) is None,
        required_text(e, "result"@) is Some && DKIMResultType::spec_from_tag(
            text_at(e, "result"@),
        ) is None ==> dkim_model(e) is None,
        required_text(e, "result"@) is Some && SPFResultType::spec_from_tag(text_at(e, "result"@))
            is None ==> spf_model(e) is None,
        required_text(e, "scope"@) is Some && SPFDomainScope::spec_from_tag(text_at(e, "scope"@))
            is None ==> spf_model(e) is None,
{
}

/// The DKIM and SPF result vocabularies are distinct: `softfail` is no DKIM result and
/// `policy` no SPF result, so a DKIM check that claims `softfail`, or an SPF check that
/// claims `policy`, is refused.
pub proof fn lemma_dkim_and_spf_results_distinct(e: ElementModel)
    ensures
        DKIMResultType::spec_from_tag("softfail"@) is None,
        SPFResultType::spec_from_tag("policy"@) is None,
        required_text(e, "result"@) == Some("softfail"@) ==> dkim_model(e) is None,
        required_text(e, "result"@) == Some("policy"@) ==> spf_model(e) is None,
{
    reveal_strlit("softfail");
    reveal_strlit("policy");
    reveal_strlit("none");
    reveal_strlit("pass");
    reveal_strlit("fail");
    reveal_strlit("neutral");
    reveal_strlit("temperror");
    reveal_strlit("permerror");
    assert("softfail"@.len() == 8);
    assert("policy"@.len() == 6);
    assert("none"@.len() == 4);
    assert("pass"@.len() == 4);
    assert("fail"@.len() == 4);
    assert("neutral"@.len() == 7);
    assert("temperror"@.len() == 9);
    assert("permerror"@.len() == 9);
    assert("softfail"@ != "none"@);
    assert("softfail"@ != "pass"@);
    assert("softfail"@ != "fail"@);
    assert("softfail"@ != "policy"@);
    assert("softfail"@ != "neutral"@);
    assert("softfail"@ != "temperror"@);
    assert("softfail"@ != "permerror"@);
    assert("policy"@ != "none"@);
    assert("policy"@ != "neutral"@);
    assert("policy"@ != "pass"@);
    assert("policy"@ != "fail"@);
    assert("policy"@ != "softfail"@);
    assert("policy"@ != "temperror"@);
    assert("policy"@ != "permerror"@);
}

/// A part of a record that cannot be read refuses the record.
pub proof fn lemma_unreadable_part_refuses_record(e: ElementModel)
    ensures
        child(e, "row"@) is Some && row_model(child(e, "row"@)->0) is None ==> record_model(e)
            is None,
        child(e, "identifiers"@) is Some && identifier_model(child(e, "identifiers"@)->0) is None
            ==> record_model(e) is None,
        child(e, "auth_results"@) is Some && auth_result_model(child(e, "auth_results"@)->0)
            is None ==> record_model(e) is None,
        child(e, "policy_evaluated"@) is Some && policy_evaluated_model(
            child(e, "policy_evaluated"@)->0,
        ) is None ==> row_model(e) is None,
        forall|i: int|
            0 <= i < children(e, "reason"@).len() && reason_model(
                #[trigger] children(e, "reason"@)[i],
            ) is None ==> policy_evaluated_model(e) is None,
        forall|i: int|
            0 <= i < children(e, "dkim"@).len() && dkim_model(#[trigger] children(e, "dkim"@)[i])
                is None ==> auth_result_model(e) is None,
        forall|i: int|
            0 <= i < children(e, "spf"@).len() && spf_model(#[trigger] children(e, "spf"@)[i])
                is None ==> auth_result_model(e) is None,
{
    assert forall|i: int|
        0 <= i < children(e, "reason"@).len() && reason_model(
            #[trigger] children(e, "reason"@)[i],
        ) is None implies policy_evaluated_model(e) is None by {
        lemma_read_all_refuses(children(e, "reason"@), read_reason(), i);
    }
    assert forall|i: int|
        0 <= i < children(e, "dkim"@).len() && dkim_model(#[trigger] children(e, "dkim"@)[i])
            is None implies auth_result_model(e) is None by {
        lemma_read_all_refuses(children(e, "dkim"@), read_dkim(), i);
    }
    assert forall|i: int|
        0 <= i < children(e, "spf"@).len() && spf_model(#[trigger] children(e, "spf"@)[i])
            is None implies auth_result_model(e) is None by {
        lemma_read_all_refuses(children(e, "spf"@), read_spf(), i);
    }
}

/// A part of the report that cannot be read (its metadata, its published policy, or any one
/// of its records) refuses the whole report.
pub proof fn lemma_unreadable_part_refuses_report(root: ElementModel)
    ensures
        child(root, "report_metadata"@) is Some && metadata_model(
            child(root, "report_metadata"@)->0,
        ) is None ==> feedback_model(root) is None,
        child(root, "policy_published"@) is Some && policy_published_model(
            child(root, "policy_published"@)->0,
        ) is None ==> feedback_model(root) is None,
        forall|i: int|
            0 <= i < children(root, "record"@).len() && record_model(
                #[trigger] children(root, "record"@)[i],
            ) is None ==> feedback_model(root) is None,
{
    assert forall|i: int|
        0 <= i < children(root, "record"@).len() && record_model(
            #[trigger] children(root, "record"@)[i],
        ) is None implies feedback_model(root) is None by {
        lemma_read_all_refuses(children(root, "record"@), read_record(), i);
    }
}

/// Each element of a list that reads is read on its own, at the same position.
pub proof fn lemma_read_all_items<T>(s: Seq<ElementModel>, read: spec_fn(ElementModel) -> Option<T>)
    requires
        read_all(s, read) is Some,
    ensures
        read_all(s, read)->0.len() == s.len(),
        forall|i: int| 0 <= i < s.len() ==> read(#[trigger] s[i]) == Some(read_all(s, read)->0[i]),
    decreases s.len(),
{
    if s.len() > 0 {
        lemma_read_all_items(s.drop_last(), read);
        assert forall|i: int| 0 <= i < s.len() implies read(#[trigger] s[i]) == Some(
            read_all(s, read)->0[i],
        ) by {
            if i < s.len() - 1 {
                assert(s[i] == s.drop_last()[i]);
            }
        }
    }
}

/// A report that reads holds, field for field, what its elements say: the texts and numbers
/// of its metadata and published policy, and one record for each `<record>` element, in
/// order, each with its row's address, count and disposition, its `header_from`, and its
/// SPF results.
pub proof fn lemma_report_fields(root: ElementModel)
    requires
        feedback_model(root) is Some,
    ensures
        ({
            let r = feedback_model(root)->0;
            let m = child(root, "report_metadata"@)->0;
            let d = child(m, "date_range"@)->0;
            let p = child(root, "policy_published"@)->0;
            let recs = children(root, "record"@);
            &&& root.name == "feedback"@
            &&& child(root, "report_metadata"@) is Some
            &&& child(m, "date_range"@) is Some
            &&& child(root, "policy_published"@) is Some
            &&& r.report_metadata.org_name == text_at(m, "org_name"@)
            &&& r.report_metadata.email == text_at(m, "email"@)
            &&& r.report_metadata.report_id == text_at(m, "report_id"@)
            &&& r.report_metadata.date_range.begin as nat == required_number(
                d,
                "begin"@,
                u32::MAX as nat,
            )->0
            &&& r.report_metadata.date_range.end as nat == required_number(
                d,
                "end"@,
                u32::MAX as nat,
            )->0
            &&& r.policy_published.domain == text_at(p, "domain"@)
            &&& Some(r.policy_published.p) == DispositionType::spec_from_tag(text_at(p, "p"@))
            &&& r.policy_published.pct as nat == required_number(p, "pct"@, u8::MAX as nat)->0
            &&& r.record.len() == recs.len()
            &&& forall|i: int| 0 <= i < recs.len() ==> Some(#[trigger] r.record[i]) == record_model(recs[i])
        }),
{
    lemma_read_all_items(children(root, "record"@), read_record());
}

/// A record that reads holds what its elements say.
pub proof fn lemma_record_fields(e: ElementModel)
    requires
        record_model(e) is Some,
    ensures
        ({
            let r = record_model(e)->0;
            let row = child(e, "row"@)->0;
            let pe = child(row, "policy_evaluated"@)->0;
            let ids = child(e, "identifiers"@)->0;
            let auth = child(e, "auth_results"@)->0;
            &&& child(e, "row"@) is Some
            &&& child(row, "policy_evaluated"@) is Some
            &&& child(e, "identifiers"@) is Some
            &&& child(e, "auth_results"@) is Some
            &&& Some(r.row.source_ip) == ip_of(text_at(row, "source_ip"@))
            &&& r.row.count as nat == required_number(row, "count"@, u32::MAX as nat)->0
            &&& Some(r.row.policy_evaluated.disposition) == DispositionType::spec_from_tag(
                text_at(pe, "disposition"@),
            )
            &&& r.identifiers.header_from == text_at(ids, "header_from"@)
            &&& children(auth, "spf"@).len() > 0
            &&& Some(r.auth_results.spf) == read_all(children(auth, "spf"@), read_spf())
        }),
{
}

/// Reads `<date_range>`.
pub fn date_range_from(e: &Element) -> (r: Result<DateRangeType, String>)
    ensures
        date_range_model(element_model(*e)) == (match r {
            Ok(d) => Some(d),
            Err(_) => None::<DateRangeType>,
        }),
{
    let begin = match required_number_of(e, "begin", u32::MAX as u64) {
        Ok(n) => n,
        Err(m) => return Err(m),
    };
    let end = match required_number_of(e, "end", u32::MAX as u64) {
        Ok(n) => n,
        Err(m) => return Err(m),
    };
    Ok(DateRangeType { begin: begin as u32, end: end as u32 })
}

/// Reads `<report_metadata>`.
pub fn metadata_from(e: &Element) -> (r: Result<ReportMetadataType, String>)
    ensures
        metadata_model(element_model(*e)) == (match r {
            Ok(x) => Some(x@),
            Err(_) => None::<ReportMetadataModel>,
        }),
{
    let org_name = match required_text_of(e, "org_name") {
        Ok(t) => t,
        Err(m) => return Err(m),
    };
    let email = match required_text_of(e, "email") {
        Ok(t) => t,
        Err(m) => return Err(m),
    };
    let extra_contact_info = match optional_text_of(e, "extra_contact_info") {
        Ok(t) => t,
        Err(m) => return Err(m),
    };
    let report_id = match required_text_of(e, "report_id") {
        Ok(t) => t,
        Err(m) => return Err(m),
    };
    let date_range = match find_child(e, "date_range") {
        Some(c) => match date_range_from(c) {
            Ok(d) => d,
            Err(m) => return Err(m),
        },
        None => return Err(missing_element("date_range")),
    };
    let error = match texts_from(e, "error") {
        Ok(v) => v,
        Err(m) => return Err(m),
    };
    Ok(ReportMetadataType { org_name, email, extra_contact_info, report_id, date_range, error })
}

/// Reads `<policy_published>`.
pub fn policy_published_from(e: &Element) -> (r: Result<PolicyPublishedType, String>)
    ensures
        policy_published_model(element_model(*e)) == (match r {
            Ok(x) => Some(x@),
            Err(_) => None::<PolicyPublishedModel>,
        }),
{
    let domain = match required_text_of(e, "domain") {
        Ok(t) => t,
        Err(m) => return Err(m),
    };
    let adkim = match optional_text_of(e, "adkim") {
        Ok(Some(t)) => match AlignmentType::from_tag(t.as_str()) {
            Some(v) => Some(v),
            None => return Err(refused_value("adkim", t.as_str())),
        },
        Ok(None) => None,
        Err(m) => return Err(m),
    };
    let aspf = match optional_text_of(e, "aspf") {
        Ok(Some(t)) => match AlignmentType::from_tag(t.as_str()) {
            Some(v) => Some(v),
            None => return Err(refused_value("aspf", t.as_str())),
        },
        Ok(None) => None,
        Err(m) => return Err(m),
    };
    let p = match required_text_of(e, "p") {
        Ok(t) => match DispositionType::from_tag(t.as_str()) {
            Some(v) => v,
            None => return Err(refused_value("p", t.as_str())),
        },
        Err(m) => return Err(m),
    };
    let sp = match optional_text_of(e, "sp") {
        Ok(Some(t)) => match DispositionType::from_tag(t.as_str()) {
            Some(v) => Some(v),
            None => return Err(refused_value("sp", t.as_str())),
        },
        Ok(None) => None,
        Err(m) => return Err(m),
    };
    let pct = match required_number_of(e, "pct", u8::MAX as u64) {
        Ok(n) => n as u8,
        Err(m) => return Err(m),
    };
    let fo = match optional_text_of(e, "fo") {
        Ok(t) => t,
        Err(m) => return Err(m),
    };
    Ok(PolicyPublishedType { domain, adkim, aspf, p, sp, pct, fo })
}

/// Reads one `<reason>`.
pub fn reason_from(e: &Element) -> (r: Result<PolicyOverrideReason, String>)
    ensures
        reason_model(element_model(*e)) == (match r {
            Ok(x) => Some(x@),
            Err(_) => None::<PolicyOverrideReasonModel>,
        }),
{
    let kind = match required_text_of(e, "type") {
        Ok(t) => match PolicyOverrideType::from_tag(t.as_str()) {
            Some(v) => v,
            None => return Err(refused_value("type", t.as_str())),
        },
        Err(m) => return Err(m),
    };
    let comment = match optional_text_of(e, "comment") {
        Ok(t) => t,
        Err(m) => return Err(m),
    };
    Ok(PolicyOverrideReason { kind, comment })
}

/// Reads `<policy_evaluated>`.
pub fn policy_evaluated_from(e: &Element) -> (r: Result<PolicyEvaluatedType, String>)
    ensures
        policy_evaluated_model(element_model(*e)) == (match r {
            Ok(x) => Some(x@),
            Err(_) => None::<PolicyEvaluatedModel>,
        }),
{
    let disposition = match required_text_of(e, "disposition") {
        Ok(t) => match DispositionType::from_tag(t.as_str()) {
            Some(v) => v,
            None => return Err(refused_value("disposition", t.as_str())),
        },
        Err(m) => return Err(m),
    };
    let dkim = match optional_text_of(e, "dkim") {
        Ok(Some(t)) => match DMARCResultType::from_tag(t.as_str()) {
            Some(v) => Some(v),
            None => return Err(refused_value("dkim", t.as_str())),
        },
        Ok(None) => None,
        Err(m) => return Err(m),
    };
    let spf = match optional_text_of(e, "spf") {
        Ok(Some(t)) => match DMARCResultType::from_tag(t.as_str()) {
            Some(v) => Some(v),
            None => return Err(refused_value("spf", t.as_str())),
        },
        Ok(None) => None,
        Err(m) => return Err(m),
    };
    let reason = match reasons_from(e, "reason") {
        Ok(v) => v,
        Err(m) => return Err(m),
    };
    Ok(PolicyEvaluatedType { disposition, dkim, spf, reason })
}

/// Reads `<row>`.
pub fn row_from(e: &Element) -> (r: Result<RowType, String>)
    ensures
        row_model(element_model(*e)) == (match r {
            Ok(x) => Some(x@),
            Err(_) => None::<RowModel>,
        }),
{
    let source_ip = match required_text_of(e, "source_ip") {
        Ok(t) => match ip_address_of(t.as_str()) {
            Some(a) => a,
            None => return Err(refused_value("source_ip", t.as_str())),
        },
        Err(m) => return Err(m),
    };
    let count = match required_number_of(e, "count", u32::MAX as u64) {
        Ok(n) => n as u32,
        Err(m) => return Err(m),
    };
    let policy_evaluated = match find_child(e, "policy_evaluated") {
        Some(c) => match policy_evaluated_from(c) {
            Ok(x) => x,
            Err(m) => return Err(m),
        },
        None => return Err(missing_element("policy_evaluated")),
    };
    Ok(RowType { source_ip, count, policy_evaluated })
}

/// Reads `<identifiers>`.
pub fn identifiers_from(e: &Element) -> (r: Result<IdentifierType, String>)
    ensures
        identifier_model(element_model(*e)) == (match r {
            Ok(x) => Some(x@),
            Err(_) => None::<IdentifierModel>,
        }),
{
    let envelope_to = match optional_text_of(e, "envelope_to") {
        Ok(t) => t,
        Err(m) => return Err(m),
    };
    let envelope_from = match optional_text_of(e, "envelope_from") {
        Ok(t) => t,
        Err(m) => return Err(m),
    };
    let header_from = match required_text_of(e, "header_from") {
        Ok(t) => t,
        Err(m) => return Err(m),
    };
    Ok(IdentifierType { envelope_to, envelope_from, header_from })
}

/// Reads one DKIM result.
pub fn dkim_from(e: &Element) -> (r: Result<DKIMAuthResultType, String>)
    ensures
        dkim_model(element_model(*e)) == (match r {
            Ok(x) => Some(x@),
            Err(_) => None::<DKIMAuthResultModel>,
        }),
{
    let domain = match required_text_of(e, "domain") {
        Ok(t) => t,
        Err(m) => return Err(m),
    };
    let selector = match optional_text_of(e, "selector") {
        Ok(t) => t,
        Err(m) => return Err(m),
    };
    let result = match required_text_of(e, "result") {
        Ok(t) => match DKIMResultType::from_tag(t.as_str()) {
            Some(v) => v,
            None => return Err(refused_value("result", t.as_str())),
        },
        Err(m) => return Err(m),
    };
    let human_result = match optional_text_of(e, "human_result") {
        Ok(t) => t,
        Err(m) => return Err(m),
    };
    Ok(DKIMAuthResultType { domain, selector, result, human_result })
}

/// Reads one SPF result.
pub fn spf_from(e: &Element) -> (r: Result<SPFAuthResultType, String>)
    ensures
        spf_model(element_model(*e)) == (match r {
            Ok(x) => Some(x@),
            Err(_) => None::<SPFAuthResultModel>,
        }),
{
    let domain = match required_text_of(e, "domain") {
        Ok(t) => t,
        Err(m) => return Err(m),
    };
    let scope = match optional_text_of(e, "scope") {
        Ok(Some(t)) => match SPFDomainScope::from_tag(t.as_str()) {
            Some(v) => Some(v),
            None => return Err(refused_value("scope", t.as_str())),
        },
        Ok(None) => None,
        Err(m) => return Err(m),
    };
    let result = match required_text_of(e, "result") {
        Ok(t) => match SPFResultType::from_tag(t.as_str()) {
            Some(v) => v,
            None => return Err(refused_value("result", t.as_str())),
        },
        Err(m) => return Err(m),
    };
    Ok(SPFAuthResultType { domain, scope, result })
}

/// Reads `<auth_results>`.
pub fn auth_results_from(e: &Element) -> (r: Result<AuthResultType, String>)
    ensures
        auth_result_model(element_model(*e)) == (match r {
            Ok(x) => Some(x@),
            Err(_) => None::<AuthResultModel>,
        }),
{
    let dkim = match dkim_results_from(e, "dkim") {
        Ok(v) => v,
        Err(m) => return Err(m),
    };
    let spf = match spf_results_from(e, "spf") {
        Ok(v) => v,
        Err(m) => return Err(m),
    };
    proof {
        lemma_read_all_len(children(element_model(*e), "spf"@), read_spf());
    }
    if spf.len() == 0 {
        return Err(missing_element("spf"));
    }
    Ok(AuthResultType { dkim, spf })
}

/// Reads one `<record>`.
pub fn record_from(e: &Element) -> (r: Result<RecordType, String>)
    ensures
        record_model(element_model(*e)) == (match r {
            Ok(x) => Some(x@),
            Err(_) => None::<RecordModel>,
        }),
{
    let row = match find_child(e, "row") {
        Some(c) => match row_from(c) {
            Ok(x) => x,
            Err(m) => return Err(m),
        },
        None => return Err(missing_element("row")),
    };
    let identifiers = match find_child(e, "identifiers") {
        Some(c) => match identifiers_from(c) {
            Ok(x) => x,
            Err(m) => return Err(m),
        },
        None => return Err(missing_element("identifiers")),
    };
    let auth_results = match find_child(e, "auth_results") {
        Some(c) => match auth_results_from(c) {
            Ok(x) => x,
            Err(m) => return Err(m),
        },
        None => return Err(missing_element("auth_results")),
    };
    Ok(RecordType { row, identifiers, auth_results })
}

/// Reads the report held by the root element; on failure, names the element that does not
/// fit the schema or the text that could not be read.
pub fn feedback_from(e: &Element) -> (r: Result<feedback, String>)
    ensures
        feedback_model(element_model(*e)) == (match r {
            Ok(x) => Some(x@),
            Err(_) => None::<FeedbackModel>,
        }),
{
    if !is_word(e.name.as_str(), "feedback") {
        return Err(unexpected_root(e.name.as_str()));
    }
    let version = match optional_text_of(e, "version") {
        Ok(t) => t,
        Err(m) => return Err(m),
    };
    let report_metadata = match find_child(e, "report_metadata") {
        Some(c) => match metadata_from(c) {
            Ok(x) => x,
            Err(m) => return Err(m),
        },
        None => return Err(missing_element("report_metadata")),
    };
    let policy_published = match find_child(e, "policy_published") {
        Some(c) => match policy_published_from(c) {
            Ok(x) => x,
            Err(m) => return Err(m),
        },
        None => return Err(missing_element("policy_published")),
    };
    let record = match records_from(e, "record") {
        Ok(v) => v,
        Err(m) => return Err(m),
    };
    Ok(feedback { version, report_metadata, policy_published, record })
}

/// The texts of the children named `name`, if there are any.
fn texts_from(e: &Element, name: &str) -> (r: Result<Option<Vec<String>>, String>)
    ensures
        optional_list(element_model(*e), name@, read_leaf()) == (match r {
            Ok(Some(v)) => Some(Some(all_chars(v@))),
            Ok(None) => Some(None),
            Err(_) => None,
        }),
{
    let found = find_children(e, name);
    let ghost fm = children(element_model(*e), name@);
    if found.len() == 0 {
        return Ok(None);
    }
    let mut out: Vec<String> = Vec::new();
    let mut i: usize = 0;
    while i < found.len()
        invariant
            fm == found@.map_values(|x: &Element| element_model(*x)),
            fm == children(element_model(*e), name@),
            i <= found.len(),
            read_all(fm.subrange(0, i as int), read_leaf()) == Some(all_chars(out@)),
        decreases found.len() - i,
    {
        assert(fm.subrange(0, i + 1).drop_last() == fm.subrange(0, i as int));
        assert(fm.subrange(0, i + 1).last() == element_model(*found@[i as int]));
        let ghost before = out@;
        match (match text_of(found[i]) { Some(t) => Ok(t), None => Err(not_text(name)) }) {
            Ok(x) => {
                out.push(x);
                assert(all_chars(out@) =~= all_chars(before).push(x@));
            },
            Err(m) => {
                proof {
                    assert((read_leaf())(element_model(*found@[i as int])) is None);
                    lemma_read_all_prefix(fm, read_leaf(), i + 1);
                }
                return Err(m);
            },
        }
        i = i + 1;
    }
    assert(fm.subrange(0, found.len() as int) == fm);
    Ok(Some(out))
}

/// The override reasons among the children named `name`, if there are any.
fn reasons_from(e: &Element, name: &str) -> (r: Result<Option<Vec<PolicyOverrideReason>>, String>)
    ensures
        optional_list(element_model(*e), name@, read_reason()) == (match r {
            Ok(Some(v)) => Some(Some(v@.map_values(|x: PolicyOverrideReason| x@))),
            Ok(None) => Some(None),
            Err(_) => None,
        }),
{
    let found = find_children(e, name);
    let ghost fm = children(element_model(*e), name@);
    if found.len() == 0 {
        return Ok(None);
    }
    let mut out: Vec<PolicyOverrideReason> = Vec::new();
    let mut i: usize = 0;
    while i < found.len()
        invariant
            fm == found@.map_values(|x: &Element| element_model(*x)),
            fm == children(element_model(*e), name@),
            i <= found.len(),
            read_all(fm.subrange(0, i as int), read_reason()) == Some(out@.map_values(|x: PolicyOverrideReason| x@)),
        decreases found.len() - i,
    {
        assert(fm.subrange(0, i + 1).drop_last() == fm.subrange(0, i as int));
        assert(fm.subrange(0, i + 1).last() == element_model(*found@[i as int]));
        let ghost before = out@;
        match reason_from(found[i]) {
            Ok(x) => {
                out.push(x);
                assert(out@.map_values(|x: PolicyOverrideReason| x@) =~= before.map_values(|x: PolicyOverrideReason| x@).push(x@));
            },
            Err(m) => {
                proof {
                    assert((read_reason())(element_model(*found@[i as int])) is None);
                    lemma_read_all_prefix(fm, read_reason(), i + 1);
                }
                return Err(m);
            },
        }
        i = i + 1;
    }
    assert(fm.subrange(0, found.len() as int) == fm);
    Ok(Some(out))
}

/// The DKIM results among the children named `name`, if there are any.
fn dkim_results_from(e: &Element, name: &str) -> (r: Result<Option<Vec<DKIMAuthResultType>>, String>)
    ensures
        optional_list(element_model(*e), name@, read_dkim()) == (match r {
            Ok(Some(v)) => Some(Some(v@.map_values(|x: DKIMAuthResultType| x@))),
            Ok(None) => Some(None),
            Err(_) => None,
        }),
{
    let found = find_children(e, name);
    let ghost fm = children(element_model(*e), name@);
    if found.len() == 0 {
        return Ok(None);
    }
    let mut out: Vec<DKIMAuthResultType> = Vec::new();
    let mut i: usize = 0;
    while i < found.len()
        invariant
            fm == found@.map_values(|x: &Element| element_model(*x)),
            fm == children(element_model(*e), name@),
            i <= found.len(),
            read_all(fm.subrange(0, i as int), read_dkim()) == Some(out@.map_values(|x: DKIMAuthResultType| x@)),
        decreases found.len() - i,
    {
        assert(fm.subrange(0, i + 1).drop_last() == fm.subrange(0, i as int));
        assert(fm.subrange(0, i + 1).last() == element_model(*found@[i as int]));
        let ghost before = out@;
        match dkim_from(found[i]) {
            Ok(x) => {
                out.push(x);
                assert(out@.map_values(|x: DKIMAuthResultType| x@) =~= before.map_values(|x: DKIMAuthResultType| x@).push(x@));
            },
            Err(m) => {
                proof {
                    assert((read_dkim())(element_model(*found@[i as int])) is None);
                    lemma_read_all_prefix(fm, read_dkim(), i + 1);
                }
                return Err(m);
            },
        }
        i = i + 1;
    }
    assert(fm.subrange(0, found.len() as int) == fm);
    Ok(Some(out))
}

/// The SPF results among the children named `name`.
fn spf_results_from(e: &Element, name: &str) -> (r: Result<Vec<SPFAuthResultType>, String>)
    ensures
        read_all(children(element_model(*e), name@), read_spf()) == (match r {
            Ok(v) => Some(v@.map_values(|x: SPFAuthResultType| x@)),
            Err(_) => None,
        }),
{
    let found = find_children(e, name);
    let ghost fm = children(element_model(*e), name@);
    let mut out: Vec<SPFAuthResultType> = Vec::new();
    let mut i: usize = 0;
    while i < found.len()
        invariant
            fm == found@.map_values(|x: &Element| element_model(*x)),
            fm == children(element_model(*e), name@),
            i <= found.len(),
            read_all(fm.subrange(0, i as int), read_spf()) == Some(out@.map_values(|x: SPFAuthResultType| x@)),
        decreases found.len() - i,
    {
        assert(fm.subrange(0, i + 1).drop_last() == fm.subrange(0, i as int));
        assert(fm.subrange(0, i + 1).last() == element_model(*found@[i as int]));
        let ghost before = out@;
        match spf_from(found[i]) {
            Ok(x) => {
                out.push(x);
                assert(out@.map_values(|x: SPFAuthResultType| x@) =~= before.map_values(|x: SPFAuthResultType| x@).push(x@));
            },
            Err(m) => {
                proof {
                    assert((read_spf())(element_model(*found@[i as int])) is None);
                    lemma_read_all_prefix(fm, read_spf(), i + 1);
                }
                return Err(m);
            },
        }
        i = i + 1;
    }
    assert(fm.subrange(0, found.len() as int) == fm);
    Ok(out)
}

/// The records among the children named `name`.
fn records_from(e: &Element, name: &str) -> (r: Result<Vec<RecordType>, String>)
    ensures
        read_all(children(element_model(*e), name@), read_record()) == (match r {
            Ok(v) => Some(v@.map_values(|x: RecordType| x@)),
            Err(_) => None,
        }),
{
    let found = find_children(e, name);
    let ghost fm = children(element_model(*e), name@);
    let mut out: Vec<RecordType> = Vec::new();
    let mut i: usize = 0;
    while i < found.len()
        invariant
            fm == found@.map_values(|x: &Element| element_model(*x)),
            fm == children(element_model(*e), name@),
            i <= found.len(),
            read_all(fm.subrange(0, i as int), read_record()) == Some(out@.map_values(|x: RecordType| x@)),
        decreases found.len() - i,
    {
        assert(fm.subrange(0, i + 1).drop_last() == fm.subrange(0, i as int));
        assert(fm.subrange(0, i + 1).last() == element_model(*found@[i as int]));
        let ghost before = out@;
        match record_from(found[i]) {
            Ok(x) => {
                out.push(x);
                assert(out@.map_values(|x: RecordType| x@) =~= before.map_values(|x: RecordType| x@).push(x@));
            },
            Err(m) => {
                proof {
                    assert((read_record())(element_model(*found@[i as int])) is None);
                    lemma_read_all_prefix(fm, read_record(), i + 1);
                }
                return Err(m);
            },
        }
        i = i + 1;
    }
    assert(fm.subrange(0, found.len() as int) == fm);
    Ok(out)
}

} // verus!
