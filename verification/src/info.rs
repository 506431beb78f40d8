//! INFO sub-entries.
//!
//! An INFO column is a semicolon-separated list; each entry is either a
//! bare key (a flag) or `key=value`. A recognized key decodes into its
//! typed variant; every other key decodes into an explicit non-standard
//! representation carrying the raw key and raw value, never dropped and
//! never an error. A recognized key whose value does not have the expected
//! shape also falls back to the non-standard representation.
//!
//! Named policy: keys whose standard values are floating-point (allele
//! frequency `AF`, base quality `BQ`, mapping quality `MQ`) are left
//! unrecognized on purpose — this library keeps to integer and text
//! payloads — so they come through raw under the non-standard
//! representation.

use vstd::prelude::*;

use crate::scan::spec_parse_u32;
use crate::scan::parse_u32;
use crate::scan::str_eq;
use crate::split::find_first;
use crate::split::spec_split;
use crate::split::split_char;
use crate::split::scan_to;

verus! {

/// The value carried by an unrecognized INFO key: nothing, one value, or
/// a comma-separated list.
#[derive(Debug, PartialEq, Eq, Clone)]
pub enum NonStandardInfoValue {
    NoValue,
    SingleValue(String),
    ValueList(Vec<String>),
}

/// The mathematical model of `NonStandardInfoValue`.
pub enum NonStandardInfoValueV {
    NoValue,
    SingleValue(Seq<char>),
    ValueList(Seq<Seq<char>>),
}

impl View for NonStandardInfoValue {
    type V = NonStandardInfoValueV;

    open spec fn view(&self) -> NonStandardInfoValueV {
        match self {
            NonStandardInfoValue::NoValue => NonStandardInfoValueV::NoValue,
            NonStandardInfoValue::SingleValue(s) => NonStandardInfoValueV::SingleValue(s@),
            NonStandardInfoValue::ValueList(v) => NonStandardInfoValueV::ValueList(v.deep_view()),
        }
    }
}

impl DeepView for NonStandardInfoValue {
    type V = NonStandardInfoValueV;

    open spec fn deep_view(&self) -> NonStandardInfoValueV {
        self.view()
    }
}

/// One decoded INFO entry. Integer-valued and text-valued standard keys
/// have typed variants; everything else is carried raw by `NonStandard`
/// with its key.
#[derive(Debug, PartialEq, Eq, Clone)]
pub enum InfoEntry {
    AncestralAllele(String),
    AlleleCount(Vec<u32>),
    TotalAlleleReadDepth(Vec<u32>),
    ForwardAlleleReadDepth(Vec<u32>),
    ReverseAlleleReadDepth(Vec<u32>),
    AlleleNumber(u32),
    Cigar(Vec<String>),
    SNPDatabaseMembership,
    CombinedDepth(u32),
    End(u32),
    HapMap2,
    HapMap3,
    MapQReads(u32),
    SamplesWithData(u32),
    StrandBias(u32, u32, u32, u32),
    Somatic,
    Validated,
    Flag1000G,
    NonStandard(String, NonStandardInfoValue),
}

/// The mathematical model of `InfoEntry`.
pub enum InfoEntryV {
    AncestralAllele(Seq<char>),
    AlleleCount(Seq<u32>),
    TotalAlleleReadDepth(Seq<u32>),
    ForwardAlleleReadDepth(Seq<u32>),
    ReverseAlleleReadDepth(Seq<u32>),
    AlleleNumber(u32),
    Cigar(Seq<Seq<char>>),
    SNPDatabaseMembership,
    CombinedDepth(u32),
    End(u32),
    HapMap2,
    HapMap3,
    MapQReads(u32),
    SamplesWithData(u32),
    StrandBias(u32, u32, u32, u32),
    Somatic,
    Validated,
    Flag1000G,
    NonStandard(Seq<char>, NonStandardInfoValueV),
}

impl View for InfoEntry {
    type V = InfoEntryV;

    open spec fn view(&self) -> InfoEntryV {
        match self {
            InfoEntry::AncestralAllele(s) => InfoEntryV::AncestralAllele(s@),
            InfoEntry::AlleleCount(v) => InfoEntryV::AlleleCount(v@),
            InfoEntry::TotalAlleleReadDepth(v) => InfoEntryV::TotalAlleleReadDepth(v@),
            InfoEntry::ForwardAlleleReadDepth(v) => InfoEntryV::ForwardAlleleReadDepth(v@),
            InfoEntry::ReverseAlleleReadDepth(v) => InfoEntryV::ReverseAlleleReadDepth(v@),
            InfoEntry::AlleleNumber(x) => InfoEntryV::AlleleNumber(*x),
            InfoEntry::Cigar(v) => InfoEntryV::Cigar(v.deep_view()),
            InfoEntry::SNPDatabaseMembership => InfoEntryV::SNPDatabaseMembership,
            InfoEntry::CombinedDepth(x) => InfoEntryV::CombinedDepth(*x),
            InfoEntry::End(x) => InfoEntryV::End(*x),
            InfoEntry::HapMap2 => InfoEntryV::HapMap2,
            InfoEntry::HapMap3 => InfoEntryV::HapMap3,
            InfoEntry::MapQReads(x) => InfoEntryV::MapQReads(*x),
            InfoEntry::SamplesWithData(x) => InfoEntryV::SamplesWithData(*x),
            InfoEntry::StrandBias(a, b, c, d) => InfoEntryV::StrandBias(*a, *b, *c, *d),
            InfoEntry::Somatic => InfoEntryV::Somatic,
            InfoEntry::Validated => InfoEntryV::Validated,
            InfoEntry::Flag1000G => InfoEntryV::Flag1000G,
            InfoEntry::NonStandard(k, v) => InfoEntryV::NonStandard(k@, v@),
        }
    }
}

impl DeepView for InfoEntry {
    type V = InfoEntryV;

    open spec fn deep_view(&self) -> InfoEntryV {
        self.view()
    }
}

/// How an unrecognized value comes through raw: a list when it holds a
/// comma, one value otherwise.
pub open spec fn spec_nonstandard_value(val: Seq<char>) -> NonStandardInfoValueV {
    match find_first(val, ',') {
        Some(_) => NonStandardInfoValueV::ValueList(spec_split(val, ',')),
        None => NonStandardInfoValueV::SingleValue(val),
    }
}

/// The comma-separated unsigned numbers of `val`, if every piece is one.
pub open spec fn spec_u32_list(val: Seq<char>) -> Option<Seq<u32>> {
    let ps = spec_split(val, ',');
    if forall|i: int| 0 <= i < ps.len() ==> spec_parse_u32(ps[i]) is Some {
        Some(Seq::new(ps.len(), |i: int| spec_parse_u32(ps[i]).unwrap()))
    } else {
        None
    }
}

/// What one raw INFO entry decodes to.
pub open spec fn spec_parse_info(e: Seq<char>) -> InfoEntryV {
    match find_first(e, '=') {
        None => {
            if e == seq!['D', 'B'] {
                InfoEntryV::SNPDatabaseMembership
            } else if e == seq!['H', '2'] {
                InfoEntryV::HapMap2
            } else if e == seq!['H', '3'] {
                InfoEntryV::HapMap3
            } else if e == seq!['S', 'O', 'M', 'A', 'T', 'I', 'C'] {
                InfoEntryV::Somatic
            } else if e == seq!['V', 'A', 'L', 'I', 'D', 'A', 'T', 'E', 'D'] {
                InfoEntryV::Validated
            } else if e == seq!['1', '0', '0', '0', 'G'] {
                InfoEntryV::Flag1000G
            } else {
                InfoEntryV::NonStandard(e, NonStandardInfoValueV::NoValue)
            }
        },
        Some(i) => {
            let key = e.take(i);
            let val = e.skip(i + 1);
            if key == seq!['A', 'A'] {
                InfoEntryV::AncestralAllele(val)
            } else if key == seq!['A', 'C'] {
                match spec_u32_list(val) {
                    Some(v) => InfoEntryV::AlleleCount(v),
                    None => InfoEntryV::NonStandard(key, spec_nonstandard_value(val)),
                }
            } else if key == seq!['A', 'D'] {
                match spec_u32_list(val) {
                    Some(v) => InfoEntryV::TotalAlleleReadDepth(v),
                    None => InfoEntryV::NonStandard(key, spec_nonstandard_value(val)),
                }
            } else if key == seq!['A', 'D', 'F'] {
                match spec_u32_list(val) {
                    Some(v) => InfoEntryV::ForwardAlleleReadDepth(v),
                    None => InfoEntryV::NonStandard(key, spec_nonstandard_value(val)),
                }
            } else if key == seq!['A', 'D', 'R'] {
                match spec_u32_list(val) {
                    Some(v) => InfoEntryV::ReverseAlleleReadDepth(v),
                    None => InfoEntryV::NonStandard(key, spec_nonstandard_value(val)),
                }
            } else if key == seq!['A', 'N'] {
                match spec_parse_u32(val) {
                    Some(v) => InfoEntryV::AlleleNumber(v),
                    None => InfoEntryV::NonStandard(key, spec_nonstandard_value(val)),
                }
            } else if key == seq!['D', 'P'] {
                match spec_parse_u32(val) {
                    Some(v) => InfoEntryV::CombinedDepth(v),
                    None => InfoEntryV::NonStandard(key, spec_nonstandard_value(val)),
                }
            } else if key == seq!['E', 'N', 'D'] {
                match spec_parse_u32(val) {
                    Some(v) => InfoEntryV::End(v),
                    None => InfoEntryV::NonStandard(key, spec_nonstandard_value(val)),
                }
            } else if key == seq!['M', 'Q', '0'] {
                match spec_parse_u32(val) {
                    Some(v) => InfoEntryV::MapQReads(v),
                    None => InfoEntryV::NonStandard(key, spec_nonstandard_value(val)),
                }
            } else if key == seq!['N', 'S'] {
                match spec_parse_u32(val) {
                    Some(v) => InfoEntryV::SamplesWithData(v),
                    None => InfoEntryV::NonStandard(key, spec_nonstandard_value(val)),
                }
            } else if key == seq!['C', 'I', 'G', 'A', 'R'] {
                InfoEntryV::Cigar(spec_split(val, ','))
            } else if key == seq!['S', 'B'] {
                match spec_u32_list(val) {
                    Some(v) => {
                        if v.len() == 4 {
                            InfoEntryV::StrandBias(v[0], v[1], v[2], v[3])
                        } else {
                            InfoEntryV::NonStandard(key, spec_nonstandard_value(val))
                        }
                    },
                    None => InfoEntryV::NonStandard(key, spec_nonstandard_value(val)),
                }
            } else {
                InfoEntryV::NonStandard(key, spec_nonstandard_value(val))
            }
        },
    }
}

/// Parse every comma-separated piece of `val` as an unsigned number.
#[verifier::loop_isolation(false)]
fn parse_u32_list(val: &str) -> (r: Option<Vec<u32>>)
    ensures
        match r {
            Some(v) => spec_u32_list(val@) == Some(v@),
            None => spec_u32_list(val@) is None,
        },
{
    let ps = split_char(val, ',');
    let ghost pv = spec_split(val@, ',');
    let mut out: Vec<u32> = Vec::new();
    let mut t: usize = 0;
    while t < ps.len()
        invariant
            t <= ps.len(),
            ps.deep_view() == pv,
            out.len() == t,
            forall|j: int| 0 <= j < t ==> spec_parse_u32(pv[j]) is Some,
            forall|j: int| 0 <= j < t ==> out@[j] == spec_parse_u32(pv[j]).unwrap(),
        decreases ps.len() - t,
    {
        let p: &String = &ps[t];
        proof {
            assert(p@ == pv[t as int]);
        }
        match parse_u32(p.as_str()) {
            Some(v) => {
                out.push(v);
            },
            None => {
                proof {
                    assert(spec_parse_u32(pv[t as int]) is None);
                    assert(!(forall|j: int| 0 <= j < pv.len() ==> spec_parse_u32(pv[j]) is Some))
                        by {
                        assert(0 <= t < pv.len() && !(spec_parse_u32(pv[t as int]) is Some));
                    }
                }
                return None;
            },
        }
        t += 1;
    }
    proof {
        assert(out@ =~= Seq::new(pv.len(), |i: int| spec_parse_u32(pv[i]).unwrap()));
    }
    Some(out)
}

/// Turn an unrecognized value into its raw carrier.
fn nonstandard_value(val: &str) -> (r: NonStandardInfoValue)
    ensures
        r@ == spec_nonstandard_value(val@),
{
    let n = val.unicode_len();
    let i = scan_to(val, ',', 0, n);
    proof {
        assert(val@.skip(0) =~= val@);
    }
    if i < n {
        let parts = split_char(val, ',');
        NonStandardInfoValue::ValueList(parts)
    } else {
        NonStandardInfoValue::SingleValue(val.to_owned())
    }
}

/// Decode one raw INFO entry (everything between two semicolons).
pub fn parse_info_entry(raw: &str) -> (r: InfoEntry)
    ensures
        r@ == spec_parse_info(raw@),
{
    proof {
        reveal_strlit("DB");
        reveal_strlit("H2");
        reveal_strlit("H3");
        reveal_strlit("SOMATIC");
        reveal_strlit("VALIDATED");
        reveal_strlit("1000G");
        assert(("DB")@ =~= seq!['D', 'B']);
        assert(("H2")@ =~= seq!['H', '2']);
        assert(("H3")@ =~= seq!['H', '3']);
        assert(("SOMATIC")@ =~= seq!['S', 'O', 'M', 'A', 'T', 'I', 'C']);
        assert(("VALIDATED")@ =~= seq!['V', 'A', 'L', 'I', 'D', 'A', 'T', 'E', 'D']);
        assert(("1000G")@ =~= seq!['1', '0', '0', '0', 'G']);
    }
    let n = raw.unicode_len();
    let i = scan_to(raw, '=', 0, n);
    proof {
        assert(raw@.skip(0) =~= raw@);
    }
    if i == n {
        if str_eq(raw, "DB") {
            InfoEntry::SNPDatabaseMembership
        } else if str_eq(raw, "H2") {
            InfoEntry::HapMap2
        } else if str_eq(raw, "H3") {
            InfoEntry::HapMap3
        } else if str_eq(raw, "SOMATIC") {
            InfoEntry::Somatic
        } else if str_eq(raw, "VALIDATED") {
            InfoEntry::Validated
        } else if str_eq(raw, "1000G") {
            InfoEntry::Flag1000G
        } else {
            InfoEntry::NonStandard(raw.to_owned(), NonStandardInfoValue::NoValue)
        }
    } else {
        proof {
            reveal_strlit("AA");
            reveal_strlit("AC");
            reveal_strlit("AD");
            reveal_strlit("ADF");
            reveal_strlit("ADR");
            reveal_strlit("AN");
            reveal_strlit("DP");
            reveal_strlit("END");
            reveal_strlit("MQ0");
            reveal_strlit("NS");
            reveal_strlit("CIGAR");
            reveal_strlit("SB");
            assert(("AA")@ =~= seq!['A', 'A']);
            assert(("AC")@ =~= seq!['A', 'C']);
            assert(("AD")@ =~= seq!['A', 'D']);
            assert(("ADF")@ =~= seq!['A', 'D', 'F']);
            assert(("ADR")@ =~= seq!['A', 'D', 'R']);
            assert(("AN")@ =~= seq!['A', 'N']);
            assert(("DP")@ =~= seq!['D', 'P']);
            assert(("END")@ =~= seq!['E', 'N', 'D']);
            assert(("MQ0")@ =~= seq!['M', 'Q', '0']);
            assert(("NS")@ =~= seq!['N', 'S']);
            assert(("CIGAR")@ =~= seq!['C', 'I', 'G', 'A', 'R']);
            assert(("SB")@ =~= seq!['S', 'B']);
        }
        let key = raw.substring_char(0, i);
        let val = raw.substring_char(i + 1, n);
        proof {
            assert(key@ =~= raw@.take(i as int));
            assert(val@ =~= raw@.skip(i + 1 as int));
        }
        if str_eq(key, "AA") {
            InfoEntry::AncestralAllele(val.to_owned())
        } else if str_eq(key, "AC") {
            match parse_u32_list(val) {
                Some(v) => InfoEntry::AlleleCount(v),
                None => InfoEntry::NonStandard(key.to_owned(), nonstandard_value(val)),
            }
        } else if str_eq(key, "AD") {
            match parse_u32_list(val) {
                Some(v) => InfoEntry::TotalAlleleReadDepth(v),
                None => InfoEntry::NonStandard(key.to_owned(), nonstandard_value(val)),
            }
        } else if str_eq(key, "ADF") {
            match parse_u32_list(val) {
                Some(v) => InfoEntry::ForwardAlleleReadDepth(v),
                None => InfoEntry::NonStandard(key.to_owned(), nonstandard_value(val)),
            }
        } else if str_eq(key, "ADR") {
            match parse_u32_list(val) {
                Some(v) => InfoEntry::ReverseAlleleReadDepth(v),
                None => InfoEntry::NonStandard(key.to_owned(), nonstandard_value(val)),
            }
        } else if str_eq(key, "AN") {
            match parse_u32(val) {
                Some(v) => InfoEntry::AlleleNumber(v),
                None => InfoEntry::NonStandard(key.to_owned(), nonstandard_value(val)),
            }
        } else if str_eq(key, "DP") {
            match parse_u32(val) {
                Some(v) => InfoEntry::CombinedDepth(v),
                None => InfoEntry::NonStandard(key.to_owned(), nonstandard_value(val)),
            }
        } else if str_eq(key, "END") {
            match parse_u32(val) {
                Some(v) => InfoEntry::End(v),
                None => InfoEntry::NonStandard(key.to_owned(), nonstandard_value(val)),
            }
        } else if str_eq(key, "MQ0") {
            match parse_u32(val) {
                Some(v) => InfoEntry::MapQReads(v),
                None => InfoEntry::NonStandard(key.to_owned(), nonstandard_value(val)),
            }
        } else if str_eq(key, "NS") {
            match parse_u32(val) {
                Some(v) => InfoEntry::SamplesWithData(v),
                None => InfoEntry::NonStandard(key.to_owned(), nonstandard_value(val)),
            }
        } else if str_eq(key, "CIGAR") {
            InfoEntry::Cigar(split_char(val, ','))
        } else if str_eq(key, "SB") {
            match parse_u32_list(val) {
                Some(v) => {
                    if v.len() == 4 {
                        let a = v[0];
                        let b = v[1];
                        let c = v[2];
                        let d = v[3];
                        InfoEntry::StrandBias(a, b, c, d)
                    } else {
                        InfoEntry::NonStandard(key.to_owned(), nonstandard_value(val))
                    }
                },
                None => InfoEntry::NonStandard(key.to_owned(), nonstandard_value(val)),
            }
        } else {
            InfoEntry::NonStandard(key.to_owned(), nonstandard_value(val))
        }
    }
}

} // verus!
