use vcf_stream::VcfError;
use vcf_stream::VcfFile;

fn lines(v: &[&str]) -> Vec<String> {
    v.iter().map(|s| s.to_string()).collect()
}

#[test]
fn header_with_samples() {
    let h = VcfFile::parse_header(&lines(&[
        "##fileformat=VCFv4.2\n",
        "##source=imagination\n",
        "#CHROM\tPOS\tID\tREF\tALT\tQUAL\tFILTER\tINFO\tFORMAT\tS1\tS2",
    ]))
    .expect("header should parse");
    assert_eq!(h.file_format, "VCFv4.2");
    assert!(!h.has_end_column);
    assert_eq!(
        h.sample_names,
        Some(vec!["S1".to_string(), "S2".to_string()])
    );
    assert_eq!(h.header_lines, vec!["##source=imagination".to_string() + "\n"]);
}

#[test]
fn header_sample_names_keep_terminator() {
    // Sample names are raw tokens: the final one carries the line's
    // terminator when the header line has one.
    let h = VcfFile::parse_header(&lines(&[
        "##fileformat=VCFv4.2\n",
        "#CHROM\tPOS\tID\tREF\tALT\tQUAL\tFILTER\tINFO\tFORMAT\tS1\tS2\n",
    ]))
    .expect("header should parse");
    assert_eq!(
        h.sample_names,
        Some(vec!["S1".to_string(), "S2\n".to_string()])
    );
}

#[test]
fn header_without_samples() {
    let h = VcfFile::parse_header(&lines(&[
        "##fileformat=VCFv4.3\n",
        "#CHROM\tPOS\tID\tREF\tALT\tQUAL\tFILTER\tINFO",
    ]))
    .expect("header should parse");
    assert_eq!(h.sample_names, None);
    assert!(!h.has_end_column);
}

#[test]
fn header_end_column() {
    let h = VcfFile::parse_header(&lines(&[
        "##fileformat=VCFv4.2\n",
        "#CHROM\tPOS\tID\tREF\tALT\tQUAL\tFILTER\tINFO\tEND\tFORMAT\tA",
    ]))
    .expect("header should parse");
    assert!(h.has_end_column);
    assert_eq!(h.sample_names, Some(vec!["A".to_string()]));
}

#[test]
fn header_format_column_alone() {
    // A FORMAT column with no sample columns after it still flips the
    // genotype flag on, with an empty name list.
    let h = VcfFile::parse_header(&lines(&[
        "##fileformat=VCFv4.2\n",
        "#CHROM\tPOS\tID\tREF\tALT\tQUAL\tFILTER\tINFO\tFORMAT",
    ]))
    .expect("header should parse");
    assert_eq!(h.sample_names, Some(Vec::new()));
}

#[test]
fn header_first_letter_heuristic() {
    // Column detection goes by the first letter, not the full keyword.
    let h = VcfFile::parse_header(&lines(&[
        "##fileformat=VCFv4.2\n",
        "#CHROM\tPOS\tID\tREF\tALT\tQUAL\tFILTER\tINFO\tEXTRA\tFOO\tX",
    ]))
    .expect("header should parse");
    assert!(h.has_end_column);
    assert_eq!(h.sample_names, Some(vec!["X".to_string()]));
}

#[test]
fn header_missing_format_marker() {
    let r = VcfFile::parse_header(&lines(&[
        "#CHROM\tPOS\tID\tREF\tALT\tQUAL\tFILTER\tINFO",
    ]));
    assert_eq!(r.unwrap_err(), VcfError::MissingFormatMarker);
    let r = VcfFile::parse_header(&lines(&[]));
    assert_eq!(r.unwrap_err(), VcfError::MissingFormatMarker);
}

#[test]
fn header_missing_header_line() {
    // Metadata only, then nothing.
    let r = VcfFile::parse_header(&lines(&["##fileformat=VCFv4.2\n", "##a=b\n"]));
    assert_eq!(r.unwrap_err(), VcfError::MissingHeaderLine);
    // The first non-metadata line does not open with the header marker.
    let r = VcfFile::parse_header(&lines(&["##fileformat=VCFv4.2\n", "1\t100\n"]));
    assert_eq!(r.unwrap_err(), VcfError::MissingHeaderLine);
    // End of stream shows up as an empty line.
    let r = VcfFile::parse_header(&lines(&["##fileformat=VCFv4.2\n", ""]));
    assert_eq!(r.unwrap_err(), VcfError::MissingHeaderLine);
}

#[test]
fn header_crlf_format_line() {
    let h = VcfFile::parse_header(&lines(&[
        "##fileformat=VCFv4.2\r\n",
        "#CHROM\tPOS\tID\tREF\tALT\tQUAL\tFILTER\tINFO",
    ]))
    .expect("header should parse");
    assert_eq!(h.file_format, "VCFv4.2");
}

#[test]
fn header_byte_size() {
    let l0 = "##fileformat=VCFv4.2\n";
    let l1 = "##contig=<ID=1>\n";
    let l2 = "#CHROM\tPOS\tID\tREF\tALT\tQUAL\tFILTER\tINFO\n";
    let h = VcfFile::parse_header(&lines(&[l0, l1, l2])).expect("header should parse");
    assert_eq!(h.size, l0.len() + l1.len() + l2.len());
    // Lines after the column-header line are not consumed and not counted.
    let h2 =
        VcfFile::parse_header(&lines(&[l0, l1, l2, "1\t5\t.\tA\tT\t.\tPASS\t.\n"]))
            .expect("header should parse");
    assert_eq!(h2.size, l0.len() + l1.len() + l2.len());
}

#[test]
fn metadata_line_marker() {
    assert!(vcf_stream::header::is_metadata_line("##contig=<ID=1>"));
    assert!(!vcf_stream::header::is_metadata_line("#CHROM"));
    assert!(!vcf_stream::header::is_metadata_line(""));
}

#[test]
fn error_descriptions() {
    assert_eq!(
        VcfError::MissingFormatMarker.describe(),
        "missing file format identifier"
    );
    assert_eq!(VcfError::MissingHeaderLine.describe(), "missing header line");
    assert_eq!(VcfError::TruncatedRecord.describe(), "record has too few fields");
    assert_eq!(
        VcfError::MalformedPosition.describe(),
        "record has a malformed POS entry"
    );
}

#[test]
fn vcf_file_carries_header() {
    let h = VcfFile::parse_header(&lines(&[
        "##fileformat=VCFv4.2\n",
        "#CHROM\tPOS\tID\tREF\tALT\tQUAL\tFILTER\tINFO",
    ]))
    .expect("header should parse");
    let f = VcfFile::new("some/where.vcf".to_string(), false, h);
    assert_eq!(f.path(), "some/where.vcf");
    assert!(!f.compressed());
    assert_eq!(f.header.file_format, "VCFv4.2");
}
