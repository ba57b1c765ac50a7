use dmarc_aggregate_parser::aggregate_report::{
    AlignmentType, DKIMResultType, DispositionType, IpAddress, PolicyOverrideType, SPFResultType,
};
use dmarc_aggregate_parser::error_handling::ParsingError;
use dmarc_aggregate_parser::ip::ip_address_of;
use dmarc_aggregate_parser::text::parse_decimal;
use dmarc_aggregate_parser::{
    collect_reports, format_of_extension, parse_xml, select_format, Format,
};

const MINIMAL: &str = "<feedback><report_metadata><org_name>acme</org_name><email>postmaster@aol.com</email><report_id>1</report_id><date_range><begin>1</begin><end>2</end></date_range></report_metadata><policy_published><domain>example.com</domain><p>none</p><pct>100</pct></policy_published></feedback>";

#[test]
fn extensions_are_matched_without_case() {
    assert_eq!(format_of_extension("xml"), Some(Format::Xml));
    assert_eq!(format_of_extension("XML"), Some(Format::Xml));
    assert_eq!(format_of_extension("gz"), Some(Format::Gzip));
    assert_eq!(format_of_extension("GzIp"), Some(Format::Gzip));
    assert_eq!(format_of_extension("Zip"), Some(Format::Zip));
    assert_eq!(format_of_extension("tar"), None);
    assert_eq!(format_of_extension(""), None);
}

#[test]
fn unknown_extension_keeps_its_case() {
    let result = select_format(false, "./report.TXT", Some("TXT"));
    assert_eq!(result, Err(ParsingError::UnknownFile { extension: "TXT".to_string() }));
}

#[test]
fn directory_is_refused_whatever_its_name() {
    let result = select_format(true, "./sample-data/", None);
    assert_eq!(result, Err(ParsingError::ParseDirectory { path_str: "./sample-data/".to_string() }));
    let result = select_format(true, "./reports.xml", Some("xml"));
    assert_eq!(result, Err(ParsingError::ParseDirectory { path_str: "./reports.xml".to_string() }));
}

#[test]
fn file_without_extension_reads_as_xml() {
    assert_eq!(select_format(false, "./report", None), Ok(Format::Xml));
    assert_eq!(select_format(false, "./report.gz", Some("gz")), Ok(Format::Gzip));
}

#[test]
fn no_entries_give_nothing() {
    let (reports, diagnostics) = collect_reports(Vec::new());
    assert!(reports.is_empty());
    assert!(diagnostics.is_empty());
}

#[test]
fn one_good_one_corrupt_entry() {
    let good = parse_xml(MINIMAL.as_bytes());
    let bad = parse_xml(b"<feedback>");
    assert!(good.is_ok());
    assert!(bad.is_err());
    let outcomes = vec![
        ("bad.xml".to_string(), bad),
        ("sub".to_string(), Err(ParsingError::ParseDirectory { path_str: "sub".to_string() })),
        ("good.xml".to_string(), good.clone()),
    ];
    let (reports, diagnostics) = collect_reports(outcomes);
    assert_eq!(reports, vec![good.unwrap()]);
    assert_eq!(diagnostics.len(), 1);
    assert_eq!(diagnostics[0].path, "bad.xml");
    assert!(matches!(diagnostics[0].error, ParsingError::Parse(_)));
}

#[test]
fn tags_of_closed_vocabularies() {
    assert_eq!(DispositionType::from_tag("quarantine"), Some(DispositionType::quarantine));
    assert_eq!(DispositionType::from_tag("Quarantine"), None);
    assert_eq!(DispositionType::from_tag("blocked"), None);
    assert_eq!(AlignmentType::from_tag("s"), Some(AlignmentType::s));
    assert_eq!(AlignmentType::from_tag("x"), None);
    assert_eq!(PolicyOverrideType::from_tag("sampled_out"), Some(PolicyOverrideType::sampled_out));
    assert_eq!(DKIMResultType::from_tag("policy"), Some(DKIMResultType::policy));
    assert_eq!(DKIMResultType::from_tag("softfail"), None);
    assert_eq!(SPFResultType::from_tag("softfail"), Some(SPFResultType::softfail));
    assert_eq!(SPFResultType::from_tag("policy"), None);
}

#[test]
fn decimal_numbers() {
    assert_eq!(parse_decimal("0", 10), Some(0));
    assert_eq!(parse_decimal("+42", 100), Some(42));
    assert_eq!(parse_decimal("100", 100), Some(100));
    assert_eq!(parse_decimal("101", 100), None);
    assert_eq!(parse_decimal("", 100), None);
    assert_eq!(parse_decimal("+", 100), None);
    assert_eq!(parse_decimal("-1", 100), None);
    assert_eq!(parse_decimal("1 2", 100), None);
    assert_eq!(parse_decimal("18446744073709551615", u64::MAX), Some(u64::MAX));
    assert_eq!(parse_decimal("18446744073709551616", u64::MAX), None);
}

#[test]
fn ipv4_addresses() {
    assert_eq!(ip_address_of("192.168.0.1"), Some(IpAddress::V4([192, 168, 0, 1])));
    assert_eq!(ip_address_of("0.0.0.0"), Some(IpAddress::V4([0, 0, 0, 0])));
    assert_eq!(ip_address_of("255.255.255.255"), Some(IpAddress::V4([255, 255, 255, 255])));
    assert_eq!(ip_address_of("256.1.1.1"), None);
    assert_eq!(ip_address_of("01.2.3.4"), None);
    assert_eq!(ip_address_of("1.2.3"), None);
    assert_eq!(ip_address_of("1.2.3.4.5"), None);
    assert_eq!(ip_address_of("1..3.4"), None);
}

#[test]
fn addresses_read_as_the_standard_library_reads_them() {
    let v6 = |g: [u16; 8]| Some(IpAddress::V6(g));
    let cases: Vec<(&str, Option<IpAddress>)> = vec![
        ("1.2.3.4", Some(IpAddress::V4([1, 2, 3, 4]))),
        ("001.2.3.4", None),
        ("1.2.3.04", None),
        ("1.2.3.", None),
        (".1.2.3", None),
        ("1.2.3.4 ", None),
        ("::", v6([0; 8])),
        ("::1", v6([0, 0, 0, 0, 0, 0, 0, 1])),
        ("1::", v6([1, 0, 0, 0, 0, 0, 0, 0])),
        ("1::2", v6([1, 0, 0, 0, 0, 0, 0, 2])),
        ("1:2:3:4:5:6:7:8", v6([1, 2, 3, 4, 5, 6, 7, 8])),
        ("1:2:3:4:5:6:7::", v6([1, 2, 3, 4, 5, 6, 7, 0])),
        ("::2:3:4:5:6:7:8", v6([0, 2, 3, 4, 5, 6, 7, 8])),
        ("::1:2:3:4:5:6:7", v6([0, 1, 2, 3, 4, 5, 6, 7])),
        ("::1:2:3:4:5:6:7:8", None),
        ("1:2:3:4:5:6:7:8:9", None),
        ("1:2:3:4:5:6:7", None),
        ("1:::2", None),
        (":1:2:3:4:5:6:7", None),
        ("1:2:3:4:5:6:7:", None),
        ("12345::", None),
        ("fFfF::0", v6([0xffff, 0, 0, 0, 0, 0, 0, 0])),
        ("2001:db8::8a2e:370:7334", v6([0x2001, 0xdb8, 0, 0, 0, 0x8a2e, 0x370, 0x7334])),
        ("64:ff9b::192.0.2.33", v6([0x64, 0xff9b, 0, 0, 0, 0, 0xc000, 0x0221])),
        ("1:2:3:4:5:6:1.2.3.4", v6([1, 2, 3, 4, 5, 6, 0x0102, 0x0304])),
        ("1:2:3:4:5:6:7:1.2.3.4", None),
        ("1:2:3:4:5::1.2.3.4", v6([1, 2, 3, 4, 5, 0, 0x0102, 0x0304])),
        ("1:2:3:4:5:6::1.2.3.4", None),
        ("1.2.3.4::", None),
        ("::1.2.3.4:1", None),
        ("1::2::3", None),
        ("g::", None),
        ("", None),
        (":", None),
        (":::", None),
        ("0000:0000:0000:0000:0000:0000:0000:0001", v6([0, 0, 0, 0, 0, 0, 0, 1])),
    ];
    for (text, expected) in cases {
        assert_eq!(ip_address_of(text), expected, "{}", text);
    }
}

#[test]
fn ipv6_address_groups() {
    assert_eq!(
        ip_address_of("2001:db8::1"),
        Some(IpAddress::V6([0x2001, 0xdb8, 0, 0, 0, 0, 0, 1]))
    );
    assert_eq!(
        ip_address_of("::ffff:192.0.2.128"),
        Some(IpAddress::V6([0, 0, 0, 0, 0, 0xffff, 0xc000, 0x0280]))
    );
}
