//! The decoder's cross-cutting laws, stated once over the decode model.
//!
//! Each proof function here is part of the library's stated behaviour:
//! what holds of every record, not of one example.

use vstd::prelude::*;

use crate::caps::CapabilityMask;
use crate::caps::full_mask;
use crate::error::VcfError;
use crate::header::VcfHeader;
use crate::header::header_ok;
use crate::header::spec_format_idx;
use crate::header::spec_has_samples;
use crate::record::VcfRecordV;
use crate::record::record_pieces;
use crate::record::spec_decode;
use crate::split::lemma_split_join_round_trip;
use crate::split::spec_join;
use crate::split::spec_split;

verus! {

/// A parsed header carries sample names exactly when the token after the
/// mandatory (and END) columns opens with the FORMAT letter — and then
/// exactly one name per trailing token of the column-header line.
pub proof fn lemma_sample_names_iff_format_token(h: VcfHeader, lines: Seq<Seq<char>>, k: int)
    requires
        0 <= k < lines.len(),
        header_ok(h, lines, k),
    ensures
        ({
            let cols = spec_split(lines[k], '\t');
            &&& (h.sample_names is Some <==> spec_has_samples(cols))
            &&& match h.sample_names {
                Some(ns) => ns.len() == cols.len() - spec_format_idx(cols) - 1,
                None => true,
            }
        }),
{
    let cols = spec_split(lines[k], '\t');
    match h.sample_names {
        Some(ns) => {
            assert(spec_has_samples(cols));
            assert(cols.len() > spec_format_idx(cols));
            assert(cols.skip(spec_format_idx(cols) + 1).len() == cols.len() - spec_format_idx(
                cols,
            ) - 1);
            assert(ns.deep_view().len() == ns@.len());
        },
        None => {},
    }
}

/// The ID column round-trips: for a decoded record whose mask requested
/// identifiers, the list is absent exactly when the raw column is the
/// sentinel `.`, and otherwise re-joining the list on `;` reproduces the
/// raw column.
pub proof fn lemma_id_field_round_trip(
    line: Seq<char>,
    has_end: bool,
    has_samples: bool,
    caps: CapabilityMask,
    rec: VcfRecordV,
)
    requires
        caps.id,
        spec_decode(line, has_end, has_samples, caps) == Ok::<VcfRecordV, VcfError>(rec),
    ensures
        ({
            let raw = record_pieces(line, has_end, has_samples)[2];
            match rec.id {
                None => raw == seq!['.'],
                Some(ids) => raw != seq!['.'] && spec_join(ids, ';') == raw,
            }
        }),
{
    let raw = record_pieces(line, has_end, has_samples)[2];
    lemma_split_join_round_trip(raw, ';');
}

/// Whenever a line decodes under the full mask, it decodes under every
/// mask: a mask can only switch conversions off, never add a failure.
pub proof fn lemma_full_ok_masked_ok(
    line: Seq<char>,
    has_end: bool,
    has_samples: bool,
    m: CapabilityMask,
)
    requires
        spec_decode(line, has_end, has_samples, full_mask()) is Ok,
    ensures
        spec_decode(line, has_end, has_samples, m) is Ok,
{
}

/// Decoding with a mask that excludes some fields yields, for every field
/// the mask does request, the same value as decoding with the full mask:
/// skipping a column never corrupts the boundaries of the columns after
/// it.
pub proof fn lemma_mask_agrees_with_full(
    line: Seq<char>,
    has_end: bool,
    has_samples: bool,
    m: CapabilityMask,
    rf: VcfRecordV,
    rm: VcfRecordV,
)
    requires
        spec_decode(line, has_end, has_samples, full_mask()) == Ok::<VcfRecordV, VcfError>(rf),
        spec_decode(line, has_end, has_samples, m) == Ok::<VcfRecordV, VcfError>(rm),
    ensures
        m.chromosome ==> rm.chromosome == rf.chromosome,
        m.position ==> rm.position == rf.position,
        m.id ==> rm.id == rf.id,
        m.reference ==> rm.reference_bases == rf.reference_bases,
        m.alternate ==> rm.alternate_bases == rf.alternate_bases,
        m.quality ==> rm.quality == rf.quality,
        m.filter ==> rm.filter_status == rf.filter_status,
        m.info ==> rm.info == rf.info,
        m.end ==> rm.end == rf.end,
        m.samples ==> rm.sample_info == rf.sample_info,
{
}

/// Two decodes of one line under one header shape, with different masks,
/// agree on every field both masks request — two streams over the same
/// source see identical values wherever both ask for them, however much
/// one of them skips.
pub proof fn lemma_masks_agree(
    line: Seq<char>,
    has_end: bool,
    has_samples: bool,
    m1: CapabilityMask,
    m2: CapabilityMask,
    r1: VcfRecordV,
    r2: VcfRecordV,
)
    requires
        spec_decode(line, has_end, has_samples, m1) == Ok::<VcfRecordV, VcfError>(r1),
        spec_decode(line, has_end, has_samples, m2) == Ok::<VcfRecordV, VcfError>(r2),
    ensures
        m1.chromosome && m2.chromosome ==> r1.chromosome == r2.chromosome,
        m1.position && m2.position ==> r1.position == r2.position,
        m1.id && m2.id ==> r1.id == r2.id,
        m1.reference && m2.reference ==> r1.reference_bases == r2.reference_bases,
        m1.alternate && m2.alternate ==> r1.alternate_bases == r2.alternate_bases,
        m1.quality && m2.quality ==> r1.quality == r2.quality,
        m1.filter && m2.filter ==> r1.filter_status == r2.filter_status,
        m1.info && m2.info ==> r1.info == r2.info,
        m1.end && m2.end ==> r1.end == r2.end,
        m1.samples && m2.samples ==> r1.sample_info == r2.sample_info,
{
}

/// A source whose header declares no sample names yields records with an
/// absent sample block, whatever the capability mask asks for.
pub proof fn lemma_no_samples_no_block(
    line: Seq<char>,
    has_end: bool,
    caps: CapabilityMask,
    rec: VcfRecordV,
)
    requires
        spec_decode(line, has_end, false, caps) == Ok::<VcfRecordV, VcfError>(rec),
    ensures
        rec.sample_info is None,
{
}

} // verus!
