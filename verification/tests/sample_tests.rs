use vcf_stream::Sample;
use vcf_stream::SampleInfo;
use vcf_stream::fast_split;

#[test]
fn genotype_and_second_entry() {
    let si = SampleInfo::new(
        vec!["GT".to_string(), "DP".to_string()],
        "0/1:23".to_string(),
    );
    let samples = si.samples();
    assert_eq!(samples.len(), 1);
    assert_eq!(samples[0].get_genotype(), Some("0/1".to_string()));
    let entries = samples[0].entries();
    assert_eq!(entries, vec!["0/1".to_string(), "23".to_string()]);
}

#[test]
fn samples_split_on_tabs() {
    let si = SampleInfo::new(vec!["GT".to_string()], "0/1\t1/1\t./.".to_string());
    let samples = si.samples();
    assert_eq!(samples.len(), 3);
    assert_eq!(samples[0].unparsed_info, "0/1");
    assert_eq!(samples[1].unparsed_info, "1/1");
    assert_eq!(samples[2].unparsed_info, "./.");
}

#[test]
fn empty_sample_has_no_genotype() {
    let s = SampleInfo::parse_sample("");
    assert_eq!(s.get_genotype(), None);
    assert_eq!(s.entries(), Vec::<String>::new());
}

#[test]
fn genotype_without_delimiter_is_whole_text() {
    let s = SampleInfo::parse_sample("0|1");
    assert_eq!(s.get_genotype(), Some("0|1".to_string()));
    assert_eq!(s.entries(), vec!["0|1".to_string()]);
}

#[test]
fn parse_sample_keeps_text() {
    let s = SampleInfo::parse_sample("a:b:c");
    assert_eq!(s.unparsed_info, "a:b:c");
}

#[test]
fn sample_clone_outlives_buffer() {
    // A record's sample values are copied out, so they stay valid after
    // the text they came from is gone.
    let g;
    {
        let si = SampleInfo::new(vec!["GT".to_string()], "1/1:9".to_string());
        let samples = si.samples();
        g = samples[0].get_genotype();
    }
    assert_eq!(g, Some("1/1".to_string()));
}

#[test]
fn fast_split_drops_trailing_empty_piece() {
    assert_eq!(
        fast_split("a\tb\t", b'\t'),
        vec!["a".to_string(), "b".to_string()]
    );
    assert_eq!(fast_split("", b'\t'), Vec::<String>::new());
    assert_eq!(
        fast_split("\ta", b'\t'),
        vec!["".to_string(), "a".to_string()]
    );
    assert_eq!(
        fast_split("a\t\tb", b'\t'),
        vec!["a".to_string(), "".to_string(), "b".to_string()]
    );
    assert_eq!(fast_split("a\t\t", b'\t'), vec!["a".to_string(), "".to_string()]);
}

#[test]
fn sample_struct_is_transparent() {
    let s = Sample {
        unparsed_info: "0/0:1:2".to_string(),
    };
    let e = s.entries();
    assert_eq!(e.len(), 3);
    assert_eq!(e[2], "2");
}
