//! Reads DMARC aggregate reports (RFC 7489, appendix C) from XML, gzip-compressed XML or a
//! zip archive.
//!
//! The decisions are made here, on plain values: which format a file is read as, how its
//! bytes are unpacked and read, and which outcomes of a directory are kept. Opening files and
//! listing directories is left to the caller.
use vstd::prelude::*;

use std::io::Read;

pub mod aggregate_report;
pub mod document;
pub mod error_handling;
pub mod ip;
pub mod report_reader;
pub mod schema;
pub mod text;

use crate::aggregate_report::{feedback, FeedbackModel};
use crate::document::{
    document_from_tokens, document_root, token_models, xml_tokens, xml_tokens_of, TokenModel,
    XmlToken,
};
use crate::error_handling::ParsingError;
use crate::report_reader::{feedback_from, feedback_model};
use crate::text::{ascii_lowered, chars_of, same_chars, to_ascii_lowered};

verus! {

/// How the bytes of a file hold the report.
#[derive(Debug, Clone, Copy, PartialEq, Eq, Structural)]
pub enum Format {
    /// The XML document itself.
    Xml,
    /// One gzip member that holds the XML document.
    Gzip,
    /// A zip archive whose first entry holds the XML document.
    Zip,
}

/// The format that an extension names, whatever the case of its letters.
pub open spec fn format_of(ext: Seq<char>) -> Option<Format> {
    let e = ascii_lowered(ext);
    if e == "xml"@ {
        Some(Format::Xml)
    } else if e == "gz"@ || e == "gzip"@ {
        Some(Format::Gzip)
    } else if e == "zip"@ {
        Some(Format::Zip)
    } else {
        None
    }
}

/// The format that the extension `ext` names, compared without regard to case.
pub fn format_of_extension(ext: &str) -> (r: Option<Format>)
    ensures
        r == format_of(ext@),
{
    let e = to_ascii_lowered(ext);
    if same_chars(&e, &chars_of("xml")) {
        Some(Format::Xml)
    } else if same_chars(&e, &chars_of("gz")) || same_chars(&e, &chars_of("gzip")) {
        Some(Format::Gzip)
    } else if same_chars(&e, &chars_of("zip")) {
        Some(Format::Zip)
    } else {
        None
    }
}

/// Decides how the file at `path` is read: a directory is refused, a file without an
/// extension is read as XML, and an extension that names no format is refused with the
/// extension as it was written.
pub fn select_format(is_dir: bool, path: &str, extension: Option<&str>) -> (r: Result<
    Format,
    ParsingError,
>)
    ensures
        is_dir ==> (match r {
            Err(ParsingError::ParseDirectory { path_str }) => path_str@ == path@,
            _ => false,
        }),
        !is_dir && extension is None ==> r == Ok::<Format, ParsingError>(Format::Xml),
        !is_dir && extension is Some ==> (match format_of(extension->0@) {
            Some(f) => r == Ok::<Format, ParsingError>(f),
            None => match r {
                Err(ParsingError::UnknownFile { extension: x }) => x@ == extension->0@,
                _ => false,
            },
        }),
{
    if is_dir {
        return Err(ParsingError::ParseDirectory { path_str: path.to_string() });
    }
    match extension {
        None => Ok(Format::Xml),
        Some(ext) => match format_of_extension(ext) {
            Some(f) => Ok(f),
            None => Err(ParsingError::UnknownFile { extension: ext.to_string() }),
        },
    }
}

/// What libflate's gzip decoder inflates from `data`, or `None` where it reports an error.
pub uninterp spec fn gunzip_of(data: Seq<u8>) -> Option<Seq<u8>>;

/// What the zip crate unpacks as the first entry of the archive `data`, or `None` where it
/// reports an error (a malformed or empty archive, or an entry it cannot decrypt).
pub uninterp spec fn first_entry_of(data: Seq<u8>) -> Option<Seq<u8>>;

/// Relies on libflate's `non_blocking::gzip::Decoder`: the member that `data` holds,
/// inflated and checked against its CRC, which depends on the bytes alone. Its deflate
/// reader walks the blocks in a loop, so a long run of empty blocks cannot exhaust the stack.
#[verifier::external_body]
fn gunzip(data: &[u8]) -> (r: Result<Vec<u8>, String>)
    ensures
        match r {
            Ok(v) => gunzip_of(data@) == Some(v@),
            Err(_) => gunzip_of(data@) is None,
        },
{
    let mut out = Vec::new();
    let mut decoder = libflate::non_blocking::gzip::Decoder::new(data);
    decoder.read_to_end(&mut out).map_err(|e| e.to_string())?;
    Ok(out)
}

/// Relies on the zip crate's `ZipArchive::new` and `by_index_decrypt(0, b"")`: the first
/// entry of the archive, unpacked, which depends on the bytes alone. The empty password is
/// dropped for an entry that is not encrypted; where the entry cannot be read with it, the
/// crate hands back `InvalidPassword` as a value (where `by_index` would panic on it).
#[verifier::external_body]
fn unzip_first(data: &[u8]) -> (r: Result<Vec<u8>, String>)
    ensures
        match r {
            Ok(v) => first_entry_of(data@) == Some(v@),
            Err(_) => first_entry_of(data@) is None,
        },
{
    let mut out = Vec::new();
    let mut archive = zip::ZipArchive::new(std::io::Cursor::new(data)).map_err(|e| e.to_string())?;
    let mut entry = match archive.by_index_decrypt(0, b"") {
        Ok(Ok(entry)) => entry,
        Ok(Err(e)) => return Err(e.to_string()),
        Err(e) => return Err(e.to_string()),
    };
    entry.read_to_end(&mut out).map_err(|e| e.to_string())?;
    Ok(out)
}

/// The XML document that a file in format `format` holds, if it can be unpacked.
pub open spec fn unpacked(format: Format, data: Seq<u8>) -> Option<Seq<u8>> {
    match format {
        Format::Xml => Some(data),
        Format::Gzip => gunzip_of(data),
        Format::Zip => first_entry_of(data),
    }
}

/// Unpacks the XML document from the bytes of a file in format `format`.
pub fn unpack(format: Format, data: Vec<u8>) -> (r: Result<Vec<u8>, ParsingError>)
    ensures
        match r {
            Ok(v) => unpacked(format, data@) == Some(v@),
            Err(e) => unpacked(format, data@) is None && e is Zip,
        },
{
    match format {
        Format::Xml => Ok(data),
        Format::Gzip => match gunzip(data.as_slice()) {
            Ok(v) => Ok(v),
            Err(m) => Err(ParsingError::Zip(m)),
        },
        Format::Zip => match unzip_first(data.as_slice()) {
            Ok(v) => Ok(v),
            Err(m) => Err(ParsingError::Zip(m)),
        },
    }
}

/// The report that the tokens of a document describe, if they form one element that fits
/// the schema.
pub open spec fn report_of_tokens(t: Seq<TokenModel>) -> Option<FeedbackModel> {
    match document_root(t) {
        Some(root) => feedback_model(root),
        None => None,
    }
}

/// The report that an XML document describes, if it is well-formed and fits the schema.
pub open spec fn report_of_xml(data: Seq<u8>) -> Option<FeedbackModel> {
    match xml_tokens_of(data) {
        Ok(t) => report_of_tokens(t),
        Err(_) => None,
    }
}

/// Reads a report from the tokens of its document.
pub fn feedback_from_tokens(toks: &Vec<XmlToken>) -> (r: Result<feedback, ParsingError>)
    ensures
        match r {
            Ok(f) => report_of_tokens(token_models(toks@)) == Some(f@),
            Err(e) => report_of_tokens(token_models(toks@)) is None && e is Parse,
        },
{
    match document_from_tokens(toks) {
        Some(root) => match feedback_from(&root) {
            Ok(f) => Ok(f),
            Err(m) => Err(ParsingError::Parse(m)),
        },
        None => Err(ParsingError::Parse("the document is not one well-nested element".to_string())),
    }
}

/// Reads a report from an XML document.
pub fn parse_xml(data: &[u8]) -> (r: Result<feedback, ParsingError>)
    ensures
        match r {
            Ok(f) => report_of_xml(data@) == Some(f@),
            Err(e) => report_of_xml(data@) is None && e is Parse,
        },
{
    match xml_tokens(data) {
        Ok(toks) => feedback_from_tokens(&toks),
        Err(m) => Err(ParsingError::Parse(m)),
    }
}

/// What reading the bytes of a file in format `format` gives: `None` where they cannot be
/// unpacked, else the report of the document that they hold, if any.
pub open spec fn decoded(format: Format, data: Seq<u8>) -> Option<Option<FeedbackModel>> {
    match unpacked(format, data) {
        Some(x) => Some(report_of_xml(x)),
        None => None,
    }
}

/// Reads a report from the bytes of a file in format `format`.
pub fn parse_bytes(format: Format, data: Vec<u8>) -> (r: Result<feedback, ParsingError>)
    ensures
        match decoded(format, data@) {
            None => r is Err && r->Err_0 is Zip,
            Some(None) => r is Err && r->Err_0 is Parse,
            Some(Some(m)) => r is Ok && r->Ok_0@ == m,
        },
{
    match unpack(format, data) {
        Ok(x) => parse_xml(x.as_slice()),
        Err(e) => Err(e),
    }
}

/// A well-formed document whose root element fits the report's schema decodes, and to the
/// report that the schema reads from that element.
pub proof fn lemma_schema_valid_document_decodes(data: Seq<u8>)
    requires
        xml_tokens_of(data) is Ok,
        document_root(xml_tokens_of(data)->Ok_0) is Some,
        feedback_model(document_root(xml_tokens_of(data)->Ok_0)->0) is Some,
    ensures
        decoded(Format::Xml, data) == Some(
            feedback_model(document_root(xml_tokens_of(data)->Ok_0)->0),
        ),
        decoded(Format::Xml, data)->0 is Some,
{
}

/// A gzip-compressed document and the document itself give the same outcome: the same
/// report, field for field, or a refusal of the same kind.
pub proof fn lemma_gzip_reads_as_its_content(compressed: Seq<u8>, plain: Seq<u8>)
    requires
        gunzip_of(compressed) == Some(plain),
    ensures
        decoded(Format::Gzip, compressed) == decoded(Format::Xml, plain),
{
}

/// A directory entry that could not be read as a report, and why.
#[derive(Debug, Clone, PartialEq, Eq)]
pub struct Diagnostic {
    pub path: String,
    pub error: ParsingError,
}

/// The reports among the outcomes of a directory's entries, in order.
pub open spec fn kept_reports(s: Seq<(String, Result<feedback, ParsingError>)>) -> Seq<FeedbackModel>
    decreases s.len(),
{
    if s.len() == 0 {
        Seq::empty()
    } else {
        let before = kept_reports(s.drop_last());
        match s.last().1 {
            Ok(f) => before.push(f@),
            Err(_) => before,
        }
    }
}

/// The entries that failed for another reason than being a directory, in order.
pub open spec fn failed_entries(s: Seq<(String, Result<feedback, ParsingError>)>) -> Seq<(Seq<char>, ParsingError)>
    decreases s.len(),
{
    if s.len() == 0 {
        Seq::empty()
    } else {
        let before = failed_entries(s.drop_last());
        match s.last().1 {
            Err(ParsingError::ParseDirectory { .. }) => before,
            Err(e) => before.push((s.last().0@, e)),
            Ok(_) => before,
        }
    }
}

/// Sorts the outcomes of reading a directory's entries, in directory order: the reports are
/// kept, a subdirectory is passed over, and every other failure becomes a diagnostic.
pub fn collect_reports(outcomes: Vec<(String, Result<feedback, ParsingError>)>) -> (r: (
    Vec<feedback>,
    Vec<Diagnostic>,
))
    ensures
        r.0@.map_values(|f: feedback| f@) == kept_reports(outcomes@),
        r.1@.map_values(|d: Diagnostic| (d.path@, d.error)) == failed_entries(outcomes@),
{
    let ghost all = outcomes@;
    let n: usize = outcomes.len();
    let mut rest = outcomes;
    let mut reports: Vec<feedback> = Vec::new();
    let mut diagnostics: Vec<Diagnostic> = Vec::new();
    let mut k: usize = 0;
    assert(all.subrange(0, 0) =~= Seq::<(String, Result<feedback, ParsingError>)>::empty());
    while rest.len() > 0
        invariant
            k <= all.len(),
            all.len() == n,
            rest.len() == all.len() - k,
            rest@ == all.subrange(k as int, all.len() as int),
            reports@.map_values(|f: feedback| f@) == kept_reports(all.subrange(0, k as int)),
            diagnostics@.map_values(|d: Diagnostic| (d.path@, d.error)) == failed_entries(
                all.subrange(0, k as int),
            ),
        decreases rest.len(),
    {
        let ghost seen = all.subrange(0, k + 1);
        assert(seen.drop_last() == all.subrange(0, k as int));
        assert(seen.last() == rest@[0]);
        let ghost reports_before = reports@;
        let ghost diagnostics_before = diagnostics@;
        let (path, outcome) = rest.remove(0);
        match outcome {
            Ok(f) => {
                reports.push(f);
                assert(reports@.map_values(|f: feedback| f@) =~= reports_before.map_values(
                    |f: feedback| f@,
                ).push(f@));
            },
            Err(ParsingError::ParseDirectory { path_str }) => {},
            Err(error) => {
                diagnostics.push(Diagnostic { path, error });
                assert(diagnostics@.map_values(|d: Diagnostic| (d.path@, d.error))
                    =~= diagnostics_before.map_values(|d: Diagnostic| (d.path@, d.error)).push(
                    (path@, error),
                ));
            },
        }
        k = k + 1;
        assert(rest@ =~= all.subrange(k as int, all.len() as int));
    }
    assert(all.subrange(0, k as int) == all);
    (reports, diagnostics)
}

/// A directory with one report that reads and one file that does not gives exactly that
/// report and exactly one diagnostic, whichever of the two comes first.
pub proof fn lemma_one_good_one_corrupt(s: Seq<(String, Result<feedback, ParsingError>)>, good: int)
    requires
        s.len() == 2,
        good == 0 || good == 1,
        s[good].1 is Ok,
        s[1 - good].1 is Err,
        !(s[1 - good].1->Err_0 is ParseDirectory),
    ensures
        kept_reports(s) == seq![s[good].1->Ok_0@],
        failed_entries(s) == seq![(s[1 - good].0@, s[1 - good].1->Err_0)],
{
    assert(s.drop_last().drop_last() =~= Seq::<(String, Result<feedback, ParsingError>)>::empty());
    assert(s.drop_last().last() == s[0]);
    assert(s.drop_last() =~= seq![s[0]]);
    let s0 = s.drop_last();
    assert(kept_reports(s0.drop_last()) == Seq::<FeedbackModel>::empty());
    assert(failed_entries(s0.drop_last()) == Seq::<(Seq<char>, ParsingError)>::empty());
    if good == 0 {
        assert(kept_reports(s0) == seq![s[0].1->Ok_0@]);
        assert(failed_entries(s0) == Seq::<(Seq<char>, ParsingError)>::empty());
        assert(kept_reports(s) == kept_reports(s0));
    } else {
        assert(kept_reports(s0) == Seq::<FeedbackModel>::empty());
        assert(failed_entries(s0) =~= seq![(s[0].0@, s[0].1->Err_0)]);
        assert(kept_reports(s) =~= seq![s[1].1->Ok_0@]);
    }
}

/// No entries, as for a directory that does not exist, give no reports and no diagnostics.
pub proof fn lemma_no_entries_no_reports()
    ensures
        kept_reports(Seq::empty()) == Seq::<FeedbackModel>::empty(),
        failed_entries(Seq::empty()) == Seq::<(Seq<char>, ParsingError)>::empty(),
{
}

} // verus!
