//! The record decoder.
//!
//! One line, one record. The decoder strips the line's terminator itself
//! (one trailing line feed, with its carriage return), so callers may hand
//! lines over exactly as read. The line is then split into exactly as many
//! top-level tab-delimited fields as the header shape declares, with a
//! bounded split so the final field — the untouched sample block, when
//! present — keeps its internal tabs verbatim. Each mandatory column converts per its own
//! rule when its capability is requested, and is passed over without
//! conversion when not; passing over a column still consumes its bytes,
//! so the columns after it keep their positions.
//!
//! POS and QUAL fail differently on purpose: a POS that is not a number
//! is a `MalformedPosition` error for that line, while a QUAL that is not
//! a number (or is the absent sentinel `.`) decodes as "absent", never as
//! an error — the column is semantically loose in the wire format.

use vstd::prelude::*;

use crate::caps::CapabilityMask;
use crate::error::VcfError;
use crate::header::VcfHeader;
use crate::header::strip_line_end;
use crate::info::InfoEntry;
use crate::info::InfoEntryV;
use crate::info::parse_info_entry;
use crate::info::spec_parse_info;
use crate::sample::SampleInfo;
use crate::sample::SampleInfoV;
use crate::scan::float_text;
use crate::scan::is_float_text;
use crate::scan::parse_u32;
use crate::scan::spec_parse_u32;
use crate::scan::spec_trim;
use crate::scan::str_eq;
use crate::scan::trim;
use crate::split::spec_split;
use crate::split::spec_splitn;
use crate::split::split_char;
use crate::split::splitn_char;

verus! {

/// One decoded line. A field holds `None` either when its capability was
/// not requested or when the wire format says the value is absent; the
/// doc of each field says which applies.
#[derive(Debug, PartialEq, Clone)]
pub struct VcfRecord {
    /// The chromosome text; absent only when not requested.
    pub chromosome: Option<String>,
    /// The 1-based position; absent only when not requested.
    pub position: Option<u32>,
    /// The semicolon-split identifier list; absent when not requested or
    /// when the column holds the sentinel `.`.
    pub id: Option<Vec<String>>,
    /// The reference bases; absent only when not requested.
    pub reference_bases: Option<String>,
    /// The comma-split alternate bases; an entry equal to `.` means "no
    /// alternate". The list is absent only when not requested.
    pub alternate_bases: Option<Vec<Option<String>>>,
    /// The raw QUAL text, kept only when requested and when it is
    /// floating-point text; `.` and malformed text decode as absent.
    pub quality: Option<String>,
    /// The filter status, raw; absent only when not requested.
    pub filter_status: Option<String>,
    /// The semicolon-split INFO entries; an entry equal to `.` means
    /// "absent". The list is absent only when not requested.
    pub info: Option<Vec<Option<InfoEntry>>>,
    /// The END value, present only when the header declares the column,
    /// the capability is requested, and the text is a number.
    pub end: Option<u32>,
    /// The FORMAT key list plus raw sample text, present only when the
    /// header declares sample columns and the capability is requested.
    pub sample_info: Option<SampleInfo>,
}

/// The mathematical model of `VcfRecord`.
pub struct VcfRecordV {
    pub chromosome: Option<Seq<char>>,
    pub position: Option<u32>,
    pub id: Option<Seq<Seq<char>>>,
    pub reference_bases: Option<Seq<char>>,
    pub alternate_bases: Option<Seq<Option<Seq<char>>>>,
    pub quality: Option<Seq<char>>,
    pub filter_status: Option<Seq<char>>,
    pub info: Option<Seq<Option<InfoEntryV>>>,
    pub end: Option<u32>,
    pub sample_info: Option<SampleInfoV>,
}

impl View for VcfRecord {
    type V = VcfRecordV;

    open spec fn view(&self) -> VcfRecordV {
        VcfRecordV {
            chromosome: self.chromosome.deep_view(),
            position: self.position,
            id: self.id.deep_view(),
            reference_bases: self.reference_bases.deep_view(),
            alternate_bases: self.alternate_bases.deep_view(),
            quality: self.quality.deep_view(),
            filter_status: self.filter_status.deep_view(),
            info: self.info.deep_view(),
            end: self.end,
            sample_info: self.sample_info.deep_view(),
        }
    }
}

/// The bound handed to the top-level split: one more than the number of
/// fields before the sample block, so that block stays in one piece.
pub open spec fn field_limit(has_end: bool, has_samples: bool) -> int {
    9 + (if has_end {
        1int
    } else {
        0int
    }) + (if has_samples {
        1int
    } else {
        0int
    })
}

/// How many fields a line must yield: the eight mandatory columns, the
/// END column when declared, and FORMAT plus the sample block when sample
/// columns are declared.
pub open spec fn required_fields(has_end: bool, has_samples: bool) -> int {
    8 + (if has_end {
        1int
    } else {
        0int
    }) + (if has_samples {
        2int
    } else {
        0int
    })
}

/// The top-level fields of one line under the header shape. The line's
/// terminator (one trailing line feed, with its carriage return) is no
/// part of any field: it is stripped before the split.
pub open spec fn record_pieces(line: Seq<char>, has_end: bool, has_samples: bool) -> Seq<
    Seq<char>,
> {
    spec_splitn(strip_line_end(line), '\t', field_limit(has_end, has_samples) as nat)
}

/// The ID column: the sentinel `.` means "no identifiers"; any other text
/// splits on `;`.
pub open spec fn spec_id_field(raw: Seq<char>) -> Option<Seq<Seq<char>>> {
    if raw == seq!['.'] {
        None
    } else {
        Some(spec_split(raw, ';'))
    }
}

/// The ALT column: comma-split, each entry `.` meaning "no alternate".
pub open spec fn spec_alt_field(raw: Seq<char>) -> Seq<Option<Seq<char>>> {
    spec_split(raw, ',').map_values(
        |p: Seq<char>|
            if p == seq!['.'] {
                None
            } else {
                Some(p)
            },
    )
}

/// The QUAL column: kept as its raw text iff that text is floating-point
/// text; everything else — the sentinel `.` included — is "absent".
pub open spec fn spec_qual_field(raw: Seq<char>) -> Option<Seq<char>> {
    if is_float_text(raw) {
        Some(raw)
    } else {
        None
    }
}

/// The INFO column: semicolon-split, each entry `.` meaning "absent",
/// every other entry decoded.
pub open spec fn spec_info_field(raw: Seq<char>) -> Seq<Option<InfoEntryV>> {
    spec_split(raw, ';').map_values(
        |p: Seq<char>|
            if p == seq!['.'] {
                None
            } else {
                Some(spec_parse_info(p))
            },
    )
}

/// The sample columns: the colon-split FORMAT key list, and the raw block
/// of all samples trimmed of surrounding whitespace.
pub open spec fn spec_sample_field(fmt_raw: Seq<char>, block_raw: Seq<char>) -> SampleInfoV {
    SampleInfoV { format: spec_split(fmt_raw, ':'), unparsed_info: spec_trim(block_raw) }
}

/// What one line decodes to under a header shape and a capability mask.
/// Only two header facts matter to the shape: whether the END column is
/// declared and whether sample columns are declared.
pub open spec fn spec_decode(
    line: Seq<char>,
    has_end: bool,
    has_samples: bool,
    caps: CapabilityMask,
) -> Result<VcfRecordV, VcfError> {
    let ps = record_pieces(line, has_end, has_samples);
    if ps.len() < required_fields(has_end, has_samples) {
        Err(VcfError::TruncatedRecord)
    } else if caps.position && spec_parse_u32(ps[1]) is None {
        Err(VcfError::MalformedPosition)
    } else {
        Ok(
            VcfRecordV {
                chromosome: if caps.chromosome {
                    Some(ps[0])
                } else {
                    None
                },
                position: if caps.position {
                    Some(spec_parse_u32(ps[1]).unwrap())
                } else {
                    None
                },
                id: if caps.id {
                    spec_id_field(ps[2])
                } else {
                    None
                },
                reference_bases: if caps.reference {
                    Some(ps[3])
                } else {
                    None
                },
                alternate_bases: if caps.alternate {
                    Some(spec_alt_field(ps[4]))
                } else {
                    None
                },
                quality: if caps.quality {
                    spec_qual_field(ps[5])
                } else {
                    None
                },
                filter_status: if caps.filter {
                    Some(ps[6])
                } else {
                    None
                },
                info: if caps.info {
                    Some(spec_info_field(ps[7]))
                } else {
                    None
                },
                end: if has_end && caps.end {
                    spec_parse_u32(ps[8])
                } else {
                    None
                },
                sample_info: if has_samples && caps.samples {
                    Some(
                        spec_sample_field(
                            ps[if has_end {
                                9int
                            } else {
                                8int
                            }],
                            ps[if has_end {
                                10int
                            } else {
                                9int
                            }],
                        ),
                    )
                } else {
                    None
                },
            },
        )
    }
}

/// The model of a decode result: the record replaced by its model, the
/// error kept.
pub open spec fn decode_result_view(r: Result<VcfRecord, VcfError>) -> Result<
    VcfRecordV,
    VcfError,
> {
    match r {
        Ok(rec) => Ok(rec@),
        Err(e) => Err(e),
    }
}

fn is_dot(s: &str) -> (r: bool)
    ensures
        r == (s@ == seq!['.']),
{
    proof {
        reveal_strlit(".");
        assert((".")@ =~= seq!['.']);
    }
    str_eq(s, ".")
}

/// The comma-split ALT entries of one raw column.
#[verifier::loop_isolation(false)]
fn alt_list(raw: &str) -> (r: Vec<Option<String>>)
    ensures
        r.deep_view() == spec_alt_field(raw@),
{
    let parts = split_char(raw, ',');
    let ghost pv = spec_split(raw@, ',');
    let mut out: Vec<Option<String>> = Vec::new();
    let mut t: usize = 0;
    while t < parts.len()
        invariant
            t <= parts.len(),
            parts.deep_view() == pv,
            out.len() == t,
            forall|j: int|
                0 <= j < t ==> out.deep_view()[j] == (if pv[j] == seq!['.'] {
                    None
                } else {
                    Some(pv[j])
                }),
        decreases parts.len() - t,
    {
        let p: &String = &parts[t];
        proof {
            assert(p@ == pv[t as int]);
        }
        if is_dot(p.as_str()) {
            out.push(None);
        } else {
            out.push(Some(p.clone()));
        }
        t += 1;
    }
    proof {
        assert(out.deep_view() =~= spec_alt_field(raw@));
    }
    out
}

/// The semicolon-split INFO entries of one raw column.
#[verifier::loop_isolation(false)]
fn info_list(raw: &str) -> (r: Vec<Option<InfoEntry>>)
    ensures
        r.deep_view() == spec_info_field(raw@),
{
    let parts = split_char(raw, ';');
    let ghost pv = spec_split(raw@, ';');
    let mut out: Vec<Option<InfoEntry>> = Vec::new();
    let mut t: usize = 0;
    while t < parts.len()
        invariant
            t <= parts.len(),
            parts.deep_view() == pv,
            out.len() == t,
            forall|j: int|
                0 <= j < t ==> out.deep_view()[j] == (if pv[j] == seq!['.'] {
                    None
                } else {
                    Some(spec_parse_info(pv[j]))
                }),
        decreases parts.len() - t,
    {
        let p: &String = &parts[t];
        proof {
            assert(p@ == pv[t as int]);
        }
        if is_dot(p.as_str()) {
            out.push(None);
        } else {
            out.push(Some(parse_info_entry(p.as_str())));
        }
        t += 1;
    }
    proof {
        assert(out.deep_view() =~= spec_info_field(raw@));
    }
    out
}

impl VcfRecord {
    /// Decode one line against the header shape, converting only the
    /// columns `caps` requests. A line with fewer fields than the shape
    /// requires fails with `TruncatedRecord`; a requested POS that is not
    /// a number fails with `MalformedPosition`; nothing else fails.
    pub fn decode(line: &str, header: &VcfHeader, caps: &CapabilityMask) -> (r: Result<
        VcfRecord,
        VcfError,
    >)
        ensures
            decode_result_view(r) == spec_decode(
                line@,
                header.has_end_column,
                header.sample_names is Some,
                *caps,
            ),
    {
        let has_end = header.has_end_column;
        let has_samples = header.sample_names.is_some();
        let limit: usize = 9 + (if has_end {
            1
        } else {
            0
        }) + (if has_samples {
            1
        } else {
            0
        });
        let required: usize = 8 + (if has_end {
            1
        } else {
            0
        }) + (if has_samples {
            2
        } else {
            0
        });
        let full = line.unicode_len();
        let mut e = full;
        if e > 0 && line.get_char(e - 1) == '\n' {
            e = e - 1;
        }
        if e > 0 && line.get_char(e - 1) == '\r' {
            e = e - 1;
        }
        let stripped = line.substring_char(0, e);
        proof {
            assert(stripped@ =~= strip_line_end(line@));
        }
        let fields = splitn_char(stripped, '\t', limit);
        let ghost ps = record_pieces(line@, has_end, has_samples);
        proof {
            assert(fields.deep_view() == ps);
        }
        if fields.len() < required {
            return Err(VcfError::TruncatedRecord);
        }
        let position: Option<u32>;
        if caps.position {
            let f1: &String = &fields[1];
            proof {
                assert(f1@ == ps[1]);
            }
            match parse_u32(f1.as_str()) {
                Some(v) => {
                    position = Some(v);
                },
                None => {
                    return Err(VcfError::MalformedPosition);
                },
            }
        } else {
            position = None;
        }
        let chromosome: Option<String> = if caps.chromosome {
            let f: &String = &fields[0];
            proof {
                assert(f@ == ps[0]);
            }
            Some(f.clone())
        } else {
            None
        };
        let id: Option<Vec<String>>;
        if caps.id {
            let f: &String = &fields[2];
            proof {
                assert(f@ == ps[2]);
            }
            if is_dot(f.as_str()) {
                id = None;
            } else {
                id = Some(split_char(f.as_str(), ';'));
            }
        } else {
            id = None;
        }
        let reference_bases: Option<String> = if caps.reference {
            let f: &String = &fields[3];
            proof {
                assert(f@ == ps[3]);
            }
            Some(f.clone())
        } else {
            None
        };
        let alternate_bases: Option<Vec<Option<String>>> = if caps.alternate {
            let f: &String = &fields[4];
            proof {
                assert(f@ == ps[4]);
            }
            Some(alt_list(f.as_str()))
        } else {
            None
        };
        let quality: Option<String>;
        if caps.quality {
            let f: &String = &fields[5];
            proof {
                assert(f@ == ps[5]);
            }
            if float_text(f.as_str()) {
                quality = Some(f.clone());
            } else {
                quality = None;
            }
        } else {
            quality = None;
        }
        let filter_status: Option<String> = if caps.filter {
            let f: &String = &fields[6];
            proof {
                assert(f@ == ps[6]);
            }
            Some(f.clone())
        } else {
            None
        };
        let info: Option<Vec<Option<InfoEntry>>> = if caps.info {
            let f: &String = &fields[7];
            proof {
                assert(f@ == ps[7]);
            }
            Some(info_list(f.as_str()))
        } else {
            None
        };
        let end: Option<u32>;
        if has_end && caps.end {
            let f: &String = &fields[8];
            proof {
                assert(f@ == ps[8]);
            }
            end = parse_u32(f.as_str());
        } else {
            end = None;
        }
        let sample_info: Option<SampleInfo>;
        if has_samples && caps.samples {
            let fi: usize = if has_end {
                9
            } else {
                8
            };
            let ff: &String = &fields[fi];
            let fb: &String = &fields[fi + 1];
            proof {
                assert(ff@ == ps[fi as int]);
                assert(fb@ == ps[fi + 1 as int]);
            }
            let fmt = split_char(ff.as_str(), ':');
            let block = trim(fb.as_str());
            sample_info = Some(SampleInfo::new(fmt, block));
        } else {
            sample_info = None;
        }
        let rec = VcfRecord {
            chromosome,
            position,
            id,
            reference_bases,
            alternate_bases,
            quality,
            filter_status,
            info,
            end,
            sample_info,
        };
        Ok(rec)
    }
}

} // verus!
