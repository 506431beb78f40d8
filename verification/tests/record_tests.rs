use vcf_stream::CapabilityMask;
use vcf_stream::InfoEntry;
use vcf_stream::NonStandardInfoValue;
use vcf_stream::VcfError;
use vcf_stream::VcfFile;
use vcf_stream::VcfHeader;
use vcf_stream::VcfRecord;

fn lines(v: &[&str]) -> Vec<String> {
    v.iter().map(|s| s.to_string()).collect()
}

fn plain_header() -> VcfHeader {
    VcfFile::parse_header(&lines(&[
        "##fileformat=VCFv4.2\n",
        "#CHROM\tPOS\tID\tREF\tALT\tQUAL\tFILTER\tINFO",
    ]))
    .expect("header should parse")
}

fn end_header() -> VcfHeader {
    VcfFile::parse_header(&lines(&[
        "##fileformat=VCFv4.2\n",
        "#CHROM\tPOS\tID\tREF\tALT\tQUAL\tFILTER\tINFO\tEND",
    ]))
    .expect("header should parse")
}

fn sample_header() -> VcfHeader {
    VcfFile::parse_header(&lines(&[
        "##fileformat=VCFv4.2\n",
        "#CHROM\tPOS\tID\tREF\tALT\tQUAL\tFILTER\tINFO\tFORMAT\tS1",
    ]))
    .expect("header should parse")
}

#[test]
fn full_decode_mandatory_fields() {
    let h = plain_header();
    let all = CapabilityMask::all();
    let r = VcfRecord::decode("chr1\t100\trs7\tA\tT\t29.5\tPASS\tDP=3", &h, &all)
        .expect("record should decode");
    assert_eq!(r.chromosome, Some("chr1".to_string()));
    assert_eq!(r.position, Some(100));
    assert_eq!(r.id, Some(vec!["rs7".to_string()]));
    assert_eq!(r.reference_bases, Some("A".to_string()));
    assert_eq!(r.alternate_bases, Some(vec![Some("T".to_string())]));
    assert_eq!(r.quality, Some("29.5".to_string()));
    assert_eq!(r.filter_status, Some("PASS".to_string()));
    assert_eq!(r.info, Some(vec![Some(InfoEntry::CombinedDepth(3))]));
    assert_eq!(r.end, None);
    assert!(r.sample_info.is_none());
}

#[test]
fn alt_dot_means_no_alternate() {
    let h = plain_header();
    let all = CapabilityMask::all();
    let r = VcfRecord::decode("1\t5\t.\tG\tA,.,T\t.\tPASS\t.", &h, &all)
        .expect("record should decode");
    assert_eq!(
        r.alternate_bases,
        Some(vec![Some("A".to_string()), None, Some("T".to_string())])
    );
}

#[test]
fn id_dot_means_absent() {
    let h = plain_header();
    let all = CapabilityMask::all();
    let r = VcfRecord::decode("1\t5\t.\tG\tT\t.\tPASS\t.", &h, &all)
        .expect("record should decode");
    assert_eq!(r.id, None);
}

#[test]
fn id_round_trip() {
    let h = plain_header();
    let all = CapabilityMask::all();
    let raw = "rs1;rs22;x";
    let line = format!("1\t5\t{}\tG\tT\t.\tPASS\t.", raw);
    let r = VcfRecord::decode(&line, &h, &all).expect("record should decode");
    let ids = r.id.expect("identifiers should be present");
    assert_eq!(ids.join(";"), raw);
}

#[test]
fn quality_softness() {
    let h = plain_header();
    let all = CapabilityMask::all();
    for (qual, want) in [
        (".", None),
        ("banana", None),
        ("29.5", Some("29.5")),
        ("3", Some("3")),
        ("-1e-3", Some("-1e-3")),
        ("inf", Some("inf")),
        ("NaN", Some("NaN")),
        ("1.2.3", None),
        ("", None),
    ] {
        let line = format!("1\t5\t.\tG\tT\t{}\tPASS\t.", qual);
        let r = VcfRecord::decode(&line, &h, &all).expect("record should decode");
        assert_eq!(r.quality, want.map(|s| s.to_string()), "qual text {:?}", qual);
    }
}

#[test]
fn malformed_position_is_an_error() {
    let h = plain_header();
    let all = CapabilityMask::all();
    let r = VcfRecord::decode("1\tabc\t.\tG\tT\t.\tPASS\t.", &h, &all);
    assert_eq!(r.unwrap_err(), VcfError::MalformedPosition);
}

#[test]
fn unrequested_position_is_not_parsed() {
    let h = plain_header();
    let mut m = CapabilityMask::all();
    m.position = false;
    let r = VcfRecord::decode("1\tabc\t.\tG\tT\t.\tPASS\t.", &h, &m)
        .expect("record should decode when POS is skipped");
    assert_eq!(r.position, None);
    assert_eq!(r.chromosome, Some("1".to_string()));
}

#[test]
fn truncated_record_is_an_error() {
    let h = plain_header();
    let all = CapabilityMask::all();
    let r = VcfRecord::decode("1\t5\t.\tG", &h, &all);
    assert_eq!(r.unwrap_err(), VcfError::TruncatedRecord);
    let r = VcfRecord::decode("", &h, &all);
    assert_eq!(r.unwrap_err(), VcfError::TruncatedRecord);
}

#[test]
fn mask_excluding_field_preserves_others() {
    // Skipping columns must not corrupt the boundaries of the columns
    // after them: every field both decodes request comes out the same.
    let h = plain_header();
    let all = CapabilityMask::all();
    let mut m = CapabilityMask::all();
    m.id = false;
    m.alternate = false;
    m.info = false;
    let line = "chr2\t777\trs5;rs6\tAC\tA,G\t10\tq10\tDP=9;DB";
    let rf = VcfRecord::decode(line, &h, &all).expect("full decode");
    let rm = VcfRecord::decode(line, &h, &m).expect("masked decode");
    assert_eq!(rm.chromosome, rf.chromosome);
    assert_eq!(rm.position, rf.position);
    assert_eq!(rm.reference_bases, rf.reference_bases);
    assert_eq!(rm.quality, rf.quality);
    assert_eq!(rm.filter_status, rf.filter_status);
    assert_eq!(rm.id, None);
    assert_eq!(rm.alternate_bases, None);
    assert_eq!(rm.info, None);
}

#[test]
fn two_masks_agree_where_both_request() {
    let h = sample_header();
    let mut m1 = CapabilityMask::none();
    m1.chromosome = true;
    m1.position = true;
    m1.samples = true;
    let mut m2 = CapabilityMask::all();
    m2.chromosome = true;
    let line = "1\t42\trs1\tG\tT\t9\tPASS\tDB\tGT:DP\t0/1:23";
    let r1 = VcfRecord::decode(line, &h, &m1).expect("first decode");
    let r2 = VcfRecord::decode(line, &h, &m2).expect("second decode");
    assert_eq!(r1.chromosome, r2.chromosome);
    assert_eq!(r1.position, r2.position);
    assert_eq!(r1.sample_info, r2.sample_info);
}

#[test]
fn no_sample_header_never_yields_sample_block() {
    let h = plain_header();
    let all = CapabilityMask::all();
    let r = VcfRecord::decode("1\t5\t.\tG\tT\t.\tPASS\t.", &h, &all)
        .expect("record should decode");
    assert!(r.sample_info.is_none());
}

#[test]
fn end_column_decodes_when_requested() {
    let h = end_header();
    assert!(h.has_end_column);
    let all = CapabilityMask::all();
    let r = VcfRecord::decode("1\t5\t.\tG\tT\t.\tPASS\t.\t500", &h, &all)
        .expect("record should decode");
    assert_eq!(r.end, Some(500));
    let mut m = CapabilityMask::all();
    m.end = false;
    let r = VcfRecord::decode("1\t5\t.\tG\tT\t.\tPASS\t.\t500", &h, &m)
        .expect("record should decode");
    assert_eq!(r.end, None);
}

#[test]
fn sample_block_keeps_internal_tabs() {
    let h = VcfFile::parse_header(&lines(&[
        "##fileformat=VCFv4.2\n",
        "#CHROM\tPOS\tID\tREF\tALT\tQUAL\tFILTER\tINFO\tFORMAT\tS1\tS2",
    ]))
    .expect("header should parse");
    let all = CapabilityMask::all();
    let r = VcfRecord::decode(
        "1\t5\t.\tG\tT\t.\tPASS\t.\tGT:DP\t0/1:23\t1/1:4\n",
        &h,
        &all,
    )
    .expect("record should decode");
    let si = r.sample_info.expect("sample block should be present");
    assert_eq!(si.format, vec!["GT".to_string(), "DP".to_string()]);
    assert_eq!(si.unparsed_info, "0/1:23\t1/1:4");
    assert_eq!(si.samples().len(), 2);
}

#[test]
fn sample_block_skipped_but_consumed() {
    let h = sample_header();
    let mut m = CapabilityMask::all();
    m.samples = false;
    let r = VcfRecord::decode("1\t5\t.\tG\tT\t.\tPASS\tDB\tGT\t0/1", &h, &m)
        .expect("record should decode");
    assert!(r.sample_info.is_none());
    assert_eq!(r.info, Some(vec![Some(InfoEntry::SNPDatabaseMembership)]));
}

#[test]
fn info_entries_decode() {
    let h = plain_header();
    let all = CapabilityMask::all();
    let line = "1\t5\t.\tG\tT\t.\tPASS\tDP=3;DB;AC=1,2;AN=4;FOO=bar;XY=a,b;FLAG;.";
    let r = VcfRecord::decode(line, &h, &all).expect("record should decode");
    let info = r.info.expect("info should be present");
    assert_eq!(
        info,
        vec![
            Some(InfoEntry::CombinedDepth(3)),
            Some(InfoEntry::SNPDatabaseMembership),
            Some(InfoEntry::AlleleCount(vec![1, 2])),
            Some(InfoEntry::AlleleNumber(4)),
            Some(InfoEntry::NonStandard(
                "FOO".to_string(),
                NonStandardInfoValue::SingleValue("bar".to_string())
            )),
            Some(InfoEntry::NonStandard(
                "XY".to_string(),
                NonStandardInfoValue::ValueList(vec!["a".to_string(), "b".to_string()])
            )),
            Some(InfoEntry::NonStandard(
                "FLAG".to_string(),
                NonStandardInfoValue::NoValue
            )),
            None,
        ]
    );
}

#[test]
fn info_float_keys_stay_raw() {
    // Float-valued standard keys are a named exception: they come through
    // raw under the non-standard representation.
    let h = plain_header();
    let all = CapabilityMask::all();
    let r = VcfRecord::decode("1\t5\t.\tG\tT\t.\tPASS\tAF=0.5", &h, &all)
        .expect("record should decode");
    assert_eq!(
        r.info,
        Some(vec![Some(InfoEntry::NonStandard(
            "AF".to_string(),
            NonStandardInfoValue::SingleValue("0.5".to_string())
        ))])
    );
}

#[test]
fn info_malformed_typed_value_falls_back() {
    let h = plain_header();
    let all = CapabilityMask::all();
    let r = VcfRecord::decode("1\t5\t.\tG\tT\t.\tPASS\tDP=many;SB=1,2,3", &h, &all)
        .expect("record should decode");
    assert_eq!(
        r.info,
        Some(vec![
            Some(InfoEntry::NonStandard(
                "DP".to_string(),
                NonStandardInfoValue::SingleValue("many".to_string())
            )),
            Some(InfoEntry::NonStandard(
                "SB".to_string(),
                NonStandardInfoValue::ValueList(vec![
                    "1".to_string(),
                    "2".to_string(),
                    "3".to_string()
                ])
            )),
        ])
    );
}

#[test]
fn info_strand_bias_and_cigar() {
    let h = plain_header();
    let all = CapabilityMask::all();
    let r = VcfRecord::decode("1\t5\t.\tG\tT\t.\tPASS\tSB=1,2,3,4;CIGAR=1M,2D", &h, &all)
        .expect("record should decode");
    assert_eq!(
        r.info,
        Some(vec![
            Some(InfoEntry::StrandBias(1, 2, 3, 4)),
            Some(InfoEntry::Cigar(vec!["1M".to_string(), "2D".to_string()])),
        ])
    );
}

#[test]
fn line_terminator_is_no_part_of_any_field() {
    let h = plain_header();
    let all = CapabilityMask::all();
    let r = VcfRecord::decode("1\t5\t.\tG\tT\t.\tPASS\tDB\n", &h, &all)
        .expect("record should decode");
    assert_eq!(r.info, Some(vec![Some(InfoEntry::SNPDatabaseMembership)]));
    let r = VcfRecord::decode("1\t5\t.\tG\tT\t.\tPASS\tDB\r\n", &h, &all)
        .expect("record should decode");
    assert_eq!(r.info, Some(vec![Some(InfoEntry::SNPDatabaseMembership)]));
    assert_eq!(r.filter_status, Some("PASS".to_string()));
}

#[test]
fn empty_mask_decodes_nothing_but_consumes_all() {
    let h = plain_header();
    let none = CapabilityMask::none();
    let r = VcfRecord::decode("1\t5\trs1\tG\tT\t9\tPASS\tDB", &h, &none)
        .expect("record should decode");
    assert_eq!(r.chromosome, None);
    assert_eq!(r.position, None);
    assert_eq!(r.id, None);
    assert_eq!(r.reference_bases, None);
    assert_eq!(r.alternate_bases, None);
    assert_eq!(r.quality, None);
    assert_eq!(r.filter_status, None);
    assert_eq!(r.info, None);
    assert_eq!(r.end, None);
    assert!(r.sample_info.is_none());
}
