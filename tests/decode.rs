use std::io::Write;

use dmarc_aggregate_parser::aggregate_report::{
    AlignmentType, DKIMResultType, DMARCResultType, DispositionType, IpAddress,
    PolicyOverrideType, SPFDomainScope, SPFResultType,
};
use dmarc_aggregate_parser::document::{document_from_tokens, XmlToken};
use dmarc_aggregate_parser::error_handling::ParsingError;
use dmarc_aggregate_parser::{feedback_from_tokens, parse_bytes, parse_xml, unpack, Format};

const MINIMAL: &str = "<feedback><report_metadata><org_name>acme</org_name><email>postmaster@aol.com</email><report_id>1</report_id><date_range><begin>1</begin><end>2</end></date_range></report_metadata><policy_published><domain>example.com</domain><p>none</p><pct>100</pct></policy_published></feedback>";

const FULL: &str = r#"<?xml version="1.0" encoding="UTF-8" ?>
<feedback>
  <version>1.0</version>
  <report_metadata>
    <org_name>AOL</org_name>
    <email>postmaster@aol.com</email>
    <extra_contact_info>https://help.aol.com</extra_contact_info>
    <report_id>example.com_1500000000</report_id>
    <date_range>
      <begin>1499990400</begin>
      <end>1500076799</end>
    </date_range>
    <error>first</error>
    <error>second</error>
  </report_metadata>
  <policy_published>
    <domain>example.com</domain>
    <adkim>r</adkim>
    <aspf>s</aspf>
    <p>reject</p>
    <sp>quarantine</sp>
    <pct>100</pct>
    <fo>1</fo>
  </policy_published>
  <record>
    <row>
      <source_ip>203.0.113.7</source_ip>
      <count>3</count>
      <policy_evaluated>
        <disposition>none</disposition>
        <dkim>pass</dkim>
        <spf>fail</spf>
        <reason><type>forwarded</type><comment>list</comment></reason>
      </policy_evaluated>
    </row>
    <identifiers>
      <header_from>example.com</header_from>
    </identifiers>
    <auth_results>
      <dkim>
        <domain>example.com</domain>
        <selector>s1</selector>
        <result>pass</result>
      </dkim>
      <spf>
        <domain>mail.example.com</domain>
        <scope>mfrom</scope>
        <result>softfail</result>
      </spf>
    </auth_results>
  </record>
  <record>
    <row>
      <source_ip>198.51.100.1</source_ip>
      <count>1</count>
      <policy_evaluated>
        <disposition>quarantine</disposition>
      </policy_evaluated>
    </row>
    <identifiers>
      <envelope_from>bounce.example.com</envelope_from>
      <header_from>example.com</header_from>
    </identifiers>
    <auth_results>
      <spf>
        <domain>bounce.example.com</domain>
        <result>pass</result>
      </spf>
    </auth_results>
  </record>
</feedback>
"#;

fn gzip(data: &[u8]) -> Vec<u8> {
    let mut encoder = libflate::gzip::Encoder::new(Vec::new()).unwrap();
    encoder.write_all(data).unwrap();
    encoder.finish().into_result().unwrap()
}

fn zip_of(entries: &[(&str, &[u8])]) -> Vec<u8> {
    let mut writer = zip::ZipWriter::new(std::io::Cursor::new(Vec::new()));
    let options = zip::write::FileOptions::default().compression_method(zip::CompressionMethod::Stored);
    for (name, data) in entries {
        writer.start_file(*name, options).unwrap();
        writer.write_all(data).unwrap();
    }
    writer.finish().unwrap().into_inner()
}

#[test]
fn minimal_report_without_records() {
    let report = parse_bytes(Format::Xml, MINIMAL.as_bytes().to_vec()).unwrap();
    assert_eq!(report.report_metadata.email, "postmaster@aol.com".to_string());
    assert!(report.record.is_empty());
    assert_eq!(report.version, None);
    assert_eq!(report.report_metadata.org_name, "acme");
    assert_eq!(report.report_metadata.date_range.begin, 1);
    assert_eq!(report.report_metadata.date_range.end, 2);
    assert_eq!(report.report_metadata.extra_contact_info, None);
    assert_eq!(report.report_metadata.error, None);
    assert_eq!(report.policy_published.p, DispositionType::none);
    assert_eq!(report.policy_published.pct, 100);
    assert_eq!(report.policy_published.adkim, None);
    assert_eq!(report.policy_published.sp, None);
    assert_eq!(report.policy_published.fo, None);
}

#[test]
fn disposition_outside_vocabulary_is_refused() {
    let doc = MINIMAL.replace("<p>none</p>", "<p>blocked</p>");
    let result = parse_bytes(Format::Xml, doc.into_bytes());
    assert!(matches!(result, Err(ParsingError::Parse(_))));
}

#[test]
fn full_report_fields() {
    let report = parse_xml(FULL.as_bytes()).unwrap();
    assert_eq!(report.version, Some("1.0".to_string()));
    let meta = &report.report_metadata;
    assert_eq!(meta.org_name, "AOL");
    assert_eq!(meta.extra_contact_info, Some("https://help.aol.com".to_string()));
    assert_eq!(meta.report_id, "example.com_1500000000");
    assert_eq!(meta.date_range.begin, 1499990400);
    assert_eq!(meta.date_range.end, 1500076799);
    assert_eq!(meta.error, Some(vec!["first".to_string(), "second".to_string()]));
    let policy = &report.policy_published;
    assert_eq!(policy.adkim, Some(AlignmentType::r));
    assert_eq!(policy.aspf, Some(AlignmentType::s));
    assert_eq!(policy.p, DispositionType::reject);
    assert_eq!(policy.sp, Some(DispositionType::quarantine));
    assert_eq!(policy.fo, Some("1".to_string()));
    assert_eq!(report.record.len(), 2);
    let first = &report.record[0];
    assert_eq!(first.row.source_ip, IpAddress::V4([203, 0, 113, 7]));
    assert_eq!(first.row.count, 3);
    let evaluated = &first.row.policy_evaluated;
    assert_eq!(evaluated.disposition, DispositionType::none);
    assert_eq!(evaluated.dkim, Some(DMARCResultType::pass));
    assert_eq!(evaluated.spf, Some(DMARCResultType::fail));
    let reasons = evaluated.reason.as_ref().unwrap();
    assert_eq!(reasons.len(), 1);
    assert_eq!(reasons[0].kind, PolicyOverrideType::forwarded);
    assert_eq!(reasons[0].comment, Some("list".to_string()));
    assert_eq!(first.identifiers.header_from, "example.com");
    assert_eq!(first.identifiers.envelope_from, None);
    let dkim = first.auth_results.dkim.as_ref().unwrap();
    assert_eq!(dkim.len(), 1);
    assert_eq!(dkim[0].selector, Some("s1".to_string()));
    assert_eq!(dkim[0].result, DKIMResultType::pass);
    assert_eq!(dkim[0].human_result, None);
    assert_eq!(first.auth_results.spf[0].scope, Some(SPFDomainScope::mfrom));
    assert_eq!(first.auth_results.spf[0].result, SPFResultType::softfail);
    let second = &report.record[1];
    assert_eq!(second.row.source_ip, IpAddress::V4([198, 51, 100, 1]));
    assert_eq!(second.row.policy_evaluated.dkim, None);
    assert_eq!(second.row.policy_evaluated.reason, None);
    assert_eq!(second.identifiers.envelope_from, Some("bounce.example.com".to_string()));
    assert_eq!(second.auth_results.dkim, None);
    assert_eq!(second.auth_results.spf[0].scope, None);
}

#[test]
fn gzip_reads_as_its_content() {
    let compressed = gzip(FULL.as_bytes());
    let from_gzip = parse_bytes(Format::Gzip, compressed).unwrap();
    let from_xml = parse_bytes(Format::Xml, FULL.as_bytes().to_vec()).unwrap();
    assert_eq!(from_gzip, from_xml);
}

#[test]
fn gzip_unpacks_to_its_content() {
    let compressed = gzip(MINIMAL.as_bytes());
    assert_ne!(compressed, MINIMAL.as_bytes().to_vec());
    assert_eq!(unpack(Format::Gzip, compressed).unwrap(), MINIMAL.as_bytes().to_vec());
}

#[test]
fn malformed_gzip_is_an_archive_error() {
    let result = parse_bytes(Format::Gzip, b"not gzip at all".to_vec());
    assert!(matches!(result, Err(ParsingError::Zip(_))));
}

#[test]
fn zip_reads_its_first_entry() {
    let archive = zip_of(&[("report.xml", FULL.as_bytes()), ("other.xml", b"<broken")]);
    let from_zip = parse_bytes(Format::Zip, archive).unwrap();
    let from_xml = parse_bytes(Format::Xml, FULL.as_bytes().to_vec()).unwrap();
    assert_eq!(from_zip, from_xml);
}

#[test]
fn empty_zip_is_an_archive_error() {
    let archive = zip_of(&[]);
    assert!(matches!(parse_bytes(Format::Zip, archive), Err(ParsingError::Zip(_))));
}

#[test]
fn malformed_zip_is_an_archive_error() {
    assert!(matches!(parse_bytes(Format::Zip, b"PK nothing".to_vec()), Err(ParsingError::Zip(_))));
}

#[test]
fn malformed_xml_is_a_parse_error() {
    let result = parse_bytes(Format::Xml, b"<feedback><report_metadata></feedback>".to_vec());
    assert!(matches!(result, Err(ParsingError::Parse(_))));
}

#[test]
fn missing_required_field_is_a_parse_error() {
    let doc = MINIMAL.replace("<email>postmaster@aol.com</email>", "");
    assert!(matches!(parse_xml(doc.as_bytes()), Err(ParsingError::Parse(_))));
}

#[test]
fn numbers_out_of_range_are_refused() {
    let doc = MINIMAL.replace("<pct>100</pct>", "<pct>256</pct>");
    assert!(matches!(parse_xml(doc.as_bytes()), Err(ParsingError::Parse(_))));
    let doc = MINIMAL.replace("<pct>100</pct>", "<pct>255</pct>");
    assert_eq!(parse_xml(doc.as_bytes()).unwrap().policy_published.pct, 255);
    let doc = MINIMAL.replace("<begin>1</begin>", "<begin>4294967296</begin>");
    assert!(matches!(parse_xml(doc.as_bytes()), Err(ParsingError::Parse(_))));
    let doc = MINIMAL.replace("<begin>1</begin>", "<begin>4294967295</begin>");
    assert_eq!(parse_xml(doc.as_bytes()).unwrap().report_metadata.date_range.begin, 4294967295);
    let doc = MINIMAL.replace("<end>2</end>", "<end>two</end>");
    assert!(matches!(parse_xml(doc.as_bytes()), Err(ParsingError::Parse(_))));
}

#[test]
fn record_without_spf_is_refused() {
    let doc = FULL.replace(
        "<spf>\n        <domain>bounce.example.com</domain>\n        <result>pass</result>\n      </spf>",
        "",
    );
    assert!(matches!(parse_xml(doc.as_bytes()), Err(ParsingError::Parse(_))));
}

#[test]
fn malformed_source_ip_is_refused() {
    let doc = FULL.replace("203.0.113.7", "203.0.113");
    assert!(matches!(parse_xml(doc.as_bytes()), Err(ParsingError::Parse(_))));
}

#[test]
fn report_from_tokens() {
    let toks = vec![
        XmlToken::Other,
        XmlToken::Open("feedback".to_string()),
        XmlToken::Open("report_metadata".to_string()),
        XmlToken::Open("org_name".to_string()),
        XmlToken::Text("acme".to_string()),
        XmlToken::Close("org_name".to_string()),
        XmlToken::Open("email".to_string()),
        XmlToken::Text("a@b.c".to_string()),
        XmlToken::Close("email".to_string()),
        XmlToken::Open("report_id".to_string()),
        XmlToken::Close("report_id".to_string()),
        XmlToken::Open("date_range".to_string()),
        XmlToken::Open("begin".to_string()),
        XmlToken::Text("7".to_string()),
        XmlToken::Close("begin".to_string()),
        XmlToken::Open("end".to_string()),
        XmlToken::Text("9".to_string()),
        XmlToken::Close("end".to_string()),
        XmlToken::Close("date_range".to_string()),
        XmlToken::Close("report_metadata".to_string()),
        XmlToken::Open("policy_published".to_string()),
        XmlToken::Open("domain".to_string()),
        XmlToken::Text("d".to_string()),
        XmlToken::Close("domain".to_string()),
        XmlToken::Open("p".to_string()),
        XmlToken::Text("quarantine".to_string()),
        XmlToken::Close("p".to_string()),
        XmlToken::Open("pct".to_string()),
        XmlToken::Text("5".to_string()),
        XmlToken::Close("pct".to_string()),
        XmlToken::Close("policy_published".to_string()),
        XmlToken::Close("feedback".to_string()),
        XmlToken::Other,
    ];
    let report = feedback_from_tokens(&toks).unwrap();
    assert_eq!(report.report_metadata.email, "a@b.c");
    assert_eq!(report.report_metadata.report_id, "");
    assert_eq!(report.report_metadata.date_range.begin, 7);
    assert_eq!(report.policy_published.p, DispositionType::quarantine);
    assert_eq!(report.policy_published.pct, 5);
}

#[test]
fn tree_from_tokens() {
    let toks = vec![
        XmlToken::Open("a".to_string()),
        XmlToken::Text("x".to_string()),
        XmlToken::Open("b".to_string()),
        XmlToken::Close("b".to_string()),
        XmlToken::Close("a".to_string()),
    ];
    let root = document_from_tokens(&toks).unwrap();
    assert_eq!(root.name, "a");
    assert_eq!(root.content.len(), 2);
    let mismatched = vec![XmlToken::Open("a".to_string()), XmlToken::Close("b".to_string())];
    assert!(document_from_tokens(&mismatched).is_none());
    let two_roots = vec![
        XmlToken::Open("a".to_string()),
        XmlToken::Close("a".to_string()),
        XmlToken::Open("a".to_string()),
        XmlToken::Close("a".to_string()),
    ];
    assert!(document_from_tokens(&two_roots).is_none());
    assert!(document_from_tokens(&vec![XmlToken::Other]).is_none());
}

#[test]
fn refusals_name_what_was_refused() {
    let doc = MINIMAL.replace("<p>none</p>", "<p>blocked</p>");
    assert_eq!(
        parse_xml(doc.as_bytes()),
        Err(ParsingError::Parse("`blocked` is not a valid value of `p`".to_string()))
    );
    let doc = MINIMAL.replace("<email>postmaster@aol.com</email>", "");
    assert_eq!(
        parse_xml(doc.as_bytes()),
        Err(ParsingError::Parse("missing element `email`".to_string()))
    );
    let doc = MINIMAL.replace("<org_name>acme</org_name>", "<org_name><b>acme</b></org_name>");
    assert_eq!(
        parse_xml(doc.as_bytes()),
        Err(ParsingError::Parse("element `org_name` holds more than text".to_string()))
    );
}

fn crc32(data: &[u8]) -> u32 {
    let mut crc: u32 = 0xffff_ffff;
    for &byte in data {
        crc ^= byte as u32;
        for _ in 0..8 {
            crc = if crc & 1 == 1 { (crc >> 1) ^ 0xedb8_8320 } else { crc >> 1 };
        }
    }
    !crc
}

struct Bits {
    bytes: Vec<u8>,
    used: u32,
}

impl Bits {
    fn push(&mut self, bit: u8) {
        if self.used % 8 == 0 {
            self.bytes.push(0);
        }
        let last = self.bytes.len() - 1;
        self.bytes[last] |= bit << (self.used % 8);
        self.used += 1;
    }
}

/// A gzip member whose deflate stream is `empty_blocks` empty fixed-Huffman blocks and then
/// one stored block holding `data`.
fn gzip_with_empty_blocks(data: &[u8], empty_blocks: usize) -> Vec<u8> {
    let mut bits = Bits { bytes: Vec::new(), used: 0 };
    for _ in 0..empty_blocks {
        for bit in [0, 1, 0, 0, 0, 0, 0, 0, 0, 0] {
            bits.push(bit);
        }
    }
    for bit in [1, 0, 0] {
        bits.push(bit);
    }
    let mut out = vec![0x1f, 0x8b, 8, 0, 0, 0, 0, 0, 0, 0xff];
    out.extend_from_slice(&bits.bytes);
    let len = data.len() as u16;
    out.extend_from_slice(&len.to_le_bytes());
    out.extend_from_slice(&(!len).to_le_bytes());
    out.extend_from_slice(data);
    out.extend_from_slice(&crc32(data).to_le_bytes());
    out.extend_from_slice(&(data.len() as u32).to_le_bytes());
    out
}

#[test]
fn long_run_of_empty_deflate_blocks() {
    let compressed = gzip_with_empty_blocks(MINIMAL.as_bytes(), 200_000);
    let from_gzip = parse_bytes(Format::Gzip, compressed).unwrap();
    assert_eq!(from_gzip, parse_xml(MINIMAL.as_bytes()).unwrap());
}

/// A zip archive with one stored entry whose central record carries the AES extra field
/// while its encryption flag is clear.
fn zip_with_stray_aes_field(data: &[u8]) -> Vec<u8> {
    let name = b"report.xml";
    let mut out = Vec::new();
    out.extend_from_slice(&0x0403_4b50u32.to_le_bytes());
    for v in [20u16, 0, 0, 0, 0] {
        out.extend_from_slice(&v.to_le_bytes());
    }
    out.extend_from_slice(&crc32(data).to_le_bytes());
    out.extend_from_slice(&(data.len() as u32).to_le_bytes());
    out.extend_from_slice(&(data.len() as u32).to_le_bytes());
    out.extend_from_slice(&(name.len() as u16).to_le_bytes());
    out.extend_from_slice(&0u16.to_le_bytes());
    out.extend_from_slice(name);
    out.extend_from_slice(data);
    let central_start = out.len() as u32;
    out.extend_from_slice(&0x0201_4b50u32.to_le_bytes());
    for v in [20u16, 20, 0, 0, 0, 0] {
        out.extend_from_slice(&v.to_le_bytes());
    }
    out.extend_from_slice(&crc32(data).to_le_bytes());
    out.extend_from_slice(&(data.len() as u32).to_le_bytes());
    out.extend_from_slice(&(data.len() as u32).to_le_bytes());
    for v in [name.len() as u16, 11, 0, 0, 0] {
        out.extend_from_slice(&v.to_le_bytes());
    }
    out.extend_from_slice(&0u32.to_le_bytes());
    out.extend_from_slice(&0u32.to_le_bytes());
    out.extend_from_slice(name);
    for v in [0x9901u16, 7, 1, 0x4541] {
        out.extend_from_slice(&v.to_le_bytes());
    }
    out.push(1);
    out.extend_from_slice(&0u16.to_le_bytes());
    let central_size = out.len() as u32 - central_start;
    out.extend_from_slice(&0x0605_4b50u32.to_le_bytes());
    for v in [0u16, 0, 1, 1] {
        out.extend_from_slice(&v.to_le_bytes());
    }
    out.extend_from_slice(&central_size.to_le_bytes());
    out.extend_from_slice(&central_start.to_le_bytes());
    out.extend_from_slice(&0u16.to_le_bytes());
    out
}

#[test]
fn stray_aes_field_is_an_archive_error() {
    let archive = zip_with_stray_aes_field(MINIMAL.as_bytes());
    assert!(matches!(parse_bytes(Format::Zip, archive), Err(ParsingError::Zip(_))));
}

#[test]
fn root_element_must_be_feedback() {
    let doc = MINIMAL.replace("<feedback>", "<report>").replace("</feedback>", "</report>");
    assert_eq!(
        parse_xml(doc.as_bytes()),
        Err(ParsingError::Parse("the root element is `report`, not `feedback`".to_string()))
    );
}

#[test]
fn nesting_depth_is_bounded() {
    let nested = |depth: usize| {
        let open: String = (0..depth).map(|_| "<x>").collect();
        let close: String = (0..depth).map(|_| "</x>").collect();
        MINIMAL.replace("</feedback>", &format!("{}{}</feedback>", open, close))
    };
    assert!(parse_xml(nested(10).as_bytes()).is_ok());
    assert!(parse_xml(nested(63).as_bytes()).is_ok());
    assert!(matches!(parse_xml(nested(64).as_bytes()), Err(ParsingError::Parse(_))));
    assert!(matches!(parse_xml(nested(5000).as_bytes()), Err(ParsingError::Parse(_))));
}

#[test]
fn dkim_and_spf_results_are_not_conflated() {
    let doc = FULL.replace("<result>pass</result>\n      </dkim>", "<result>softfail</result>\n      </dkim>");
    assert_ne!(doc, FULL);
    assert!(matches!(parse_xml(doc.as_bytes()), Err(ParsingError::Parse(_))));
    let doc = FULL.replace("<result>softfail</result>", "<result>policy</result>");
    assert_ne!(doc, FULL);
    assert!(matches!(parse_xml(doc.as_bytes()), Err(ParsingError::Parse(_))));
}

#[test]
fn every_vocabulary_refuses_unknown_values() {
    for (from, to) in [
        ("<adkim>r</adkim>", "<adkim>x</adkim>"),
        ("<aspf>s</aspf>", "<aspf>relaxed</aspf>"),
        ("<sp>quarantine</sp>", "<sp>Quarantine</sp>"),
        ("<disposition>none</disposition>", "<disposition>drop</disposition>"),
        ("<dkim>pass</dkim>", "<dkim>ok</dkim>"),
        ("<spf>fail</spf>", "<spf>softfail</spf>"),
        ("<type>forwarded</type>", "<type>forward</type>"),
        ("<scope>mfrom</scope>", "<scope>from</scope>"),
    ] {
        let doc = FULL.replacen(from, to, 1);
        assert_ne!(doc, FULL, "{}", from);
        assert!(matches!(parse_xml(doc.as_bytes()), Err(ParsingError::Parse(_))), "{}", to);
    }
}
