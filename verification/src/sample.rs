//! The sample view: decomposing a record's raw per-sample text.
//!
//! A record's sample block is kept raw at decode time; splitting it into
//! per-sample texts, and those into colon-delimited sub-fields, happens
//! only when asked for. Sub-fields come out in the order the FORMAT column
//! declares; mapping a position to its FORMAT key is the caller's affair,
//! except for the first sub-field, which by convention is the genotype
//! call.

use vstd::prelude::*;

use crate::split::fast_split_char;
use crate::split::scan_to;
use crate::split::spec_fast_split;

verus! {

/// The FORMAT key list plus the raw, not-yet-split text spanning all
/// samples of one record.
#[derive(Debug, PartialEq, Eq, Clone)]
pub struct SampleInfo {
    /// The FORMAT keys, in the order the sub-fields appear in each sample.
    pub format: Vec<String>,
    /// The tab-delimited text of all samples, internal tabs verbatim.
    pub unparsed_info: String,
}

/// The mathematical model of `SampleInfo`.
pub struct SampleInfoV {
    pub format: Seq<Seq<char>>,
    pub unparsed_info: Seq<char>,
}

impl View for SampleInfo {
    type V = SampleInfoV;

    open spec fn view(&self) -> SampleInfoV {
        SampleInfoV { format: self.format.deep_view(), unparsed_info: self.unparsed_info@ }
    }
}

impl DeepView for SampleInfo {
    type V = SampleInfoV;

    open spec fn deep_view(&self) -> SampleInfoV {
        self.view()
    }
}

/// One sample's colon-delimited text, taken from a `SampleInfo`.
#[derive(Debug, PartialEq, Eq, Clone)]
pub struct Sample {
    /// The raw text of this one sample.
    pub unparsed_info: String,
}

impl View for Sample {
    type V = Seq<char>;

    open spec fn view(&self) -> Seq<char> {
        self.unparsed_info@
    }
}

impl DeepView for Sample {
    type V = Seq<char>;

    open spec fn deep_view(&self) -> Seq<char> {
        self.view()
    }
}

impl SampleInfo {
    /// Bundle a FORMAT key list with the raw text of all samples.
    pub fn new(format: Vec<String>, unparsed_info: String) -> (r: SampleInfo)
        ensures
            r.format == format,
            r.unparsed_info == unparsed_info,
    {
        SampleInfo { format, unparsed_info }
    }

    /// Split the raw block on tabs into one `Sample` per column, in file
    /// order.
    pub fn samples(&self) -> (r: Vec<Sample>)
        ensures
            r.deep_view() == spec_fast_split(self.unparsed_info@, '\t'),
    {
        let parts = fast_split_char(self.unparsed_info.as_str(), '\t');
        let ghost pv = spec_fast_split(self.unparsed_info@, '\t');
        let mut out: Vec<Sample> = Vec::new();
        let mut t: usize = 0;
        while t < parts.len()
            invariant
                t <= parts.len(),
                parts.deep_view() == pv,
                out.len() == t,
                forall|j: int| 0 <= j < t ==> out.deep_view()[j] == pv[j],
            decreases parts.len() - t,
        {
            let p: &String = &parts[t];
            out.push(Self::parse_sample(p.as_str()));
            t += 1;
        }
        proof {
            assert(out.deep_view() =~= pv);
        }
        out
    }

    /// Wrap one sample's raw text.
    pub fn parse_sample(text: &str) -> (r: Sample)
        ensures
            r@ == text@,
    {
        Sample { unparsed_info: text.to_owned() }
    }
}

impl Sample {
    /// The sample's sub-fields, in the order the FORMAT column declares.
    pub fn entries(&self) -> (r: Vec<String>)
        ensures
            r.deep_view() == spec_fast_split(self.unparsed_info@, ':'),
    {
        fast_split_char(self.unparsed_info.as_str(), ':')
    }

    /// The genotype call: the first sub-field, or absent when this
    /// sample's raw text is empty.
    pub fn get_genotype(&self) -> (r: Option<String>)
        ensures
            match r {
                None => self.unparsed_info@.len() == 0,
                Some(g) => self.unparsed_info@.len() > 0 && g@ == spec_fast_split(
                    self.unparsed_info@,
                    ':',
                )[0],
            },
    {
        let s = self.unparsed_info.as_str();
        let n = s.unicode_len();
        if n == 0 {
            return None;
        }
        let i = scan_to(s, ':', 0, n);
        let g = s.substring_char(0, i).to_owned();
        proof {
            assert(s@.skip(0) =~= s@);
            if i < n {
                assert(spec_fast_split(s@, ':')[0] == s@.take(i as int));
            } else {
                assert(spec_fast_split(s@, ':')[0] == s@);
                assert(s@.take(i as int) =~= s@);
            }
            assert(g@ == spec_fast_split(s@, ':')[0]);
        }
        Some(g)
    }
}

} // verus!
