//! The header parser.
//!
//! A file opens with metadata lines marked `##`, the first of which must
//! declare the file format; the first line that is not metadata is the
//! column-header line, marked `#`. That line fixes the file's shape: eight
//! mandatory columns, then an optional END column, then — iff genotype
//! data is present — a FORMAT column followed by one column per sample.
//!
//! Column detection is a named policy, not exact keyword matching: the
//! token at position eight is taken as the END column iff it begins with
//! `E`, and the token after the mandatory (and END) columns is taken as
//! the FORMAT column iff it begins with `F`. A custom column name opening
//! with one of those letters would be misread; upgrading the heuristic to
//! full keyword matching is a deliberate open question.
//!
//! The parser also reports the exact count of bytes the header occupies
//! (line terminators included), so a freshly opened stream can skip the
//! header by byte count instead of re-scanning lines.

use vstd::prelude::*;

use crate::error::VcfError;
use crate::scan::has_prefix;
use crate::scan::starts_with_prefix;
use crate::split::spec_split;
use crate::split::split_char;

verus! {

/// The two-character marker that opens every metadata line.
pub open spec fn metadata_marker() -> Seq<char> {
    seq!['#', '#']
}

/// The prefix the first line must carry; the file format string follows it.
pub open spec fn format_marker() -> Seq<char> {
    seq!['#', '#', 'f', 'i', 'l', 'e', 'f', 'o', 'r', 'm', 'a', 't', '=']
}

/// One trailing line feed removed, then one trailing carriage return.
pub open spec fn strip_line_end(s: Seq<char>) -> Seq<char> {
    let a = if s.len() > 0 && s.last() == '\n' {
        s.drop_last()
    } else {
        s
    };
    if a.len() > 0 && a.last() == '\r' {
        a.drop_last()
    } else {
        a
    }
}

/// The byte length of a line, UTF-8 encoded.
pub open spec fn line_byte_len(s: Seq<char>) -> usize {
    vstd::utf8::encode_utf8(s).len() as usize
}

/// The byte length of a sequence of lines.
pub open spec fn lines_byte_len(lines: Seq<Seq<char>>) -> nat
    decreases lines.len(),
{
    if lines.len() == 0 {
        0
    } else {
        (lines_byte_len(lines.drop_last()) + line_byte_len(lines.last())) as nat
    }
}

/// A count held to what a `usize` can carry.
pub open spec fn clamp_usize(x: nat) -> nat {
    if x > usize::MAX {
        usize::MAX as nat
    } else {
        x
    }
}

/// The first index at or after `k` whose line does not open with the
/// metadata marker, if any.
pub open spec fn first_non_meta_from(lines: Seq<Seq<char>>, k: int) -> Option<int>
    decreases lines.len() - k,
{
    if k < 0 || k >= lines.len() {
        None
    } else if !has_prefix(lines[k], metadata_marker()) {
        Some(k)
    } else {
        first_non_meta_from(lines, k + 1)
    }
}

/// Whether the column at position eight declares the END column: the
/// first-letter heuristic.
pub open spec fn spec_has_end(cols: Seq<Seq<char>>) -> bool {
    cols.len() > 8 && cols[8].len() > 0 && cols[8][0] == 'E'
}

/// Where the FORMAT column would stand: after the eight mandatory columns,
/// and after the END column when that is present.
pub open spec fn spec_format_idx(cols: Seq<Seq<char>>) -> int {
    if spec_has_end(cols) {
        9
    } else {
        8
    }
}

/// Whether the column after the mandatory (and END) columns declares the
/// FORMAT column: the first-letter heuristic.
pub open spec fn spec_has_samples(cols: Seq<Seq<char>>) -> bool {
    cols.len() > spec_format_idx(cols) && cols[spec_format_idx(cols)].len() > 0
        && cols[spec_format_idx(cols)][0] == 'F'
}

/// The sample names: every token after the FORMAT column, in order.
pub open spec fn spec_sample_names(cols: Seq<Seq<char>>) -> Seq<Seq<char>> {
    cols.skip(spec_format_idx(cols) + 1)
}

/// The shape of a file, fixed once from its header and never re-derived
/// per record. Immutable after construction.
#[derive(Debug, PartialEq, Eq, Clone)]
pub struct VcfHeader {
    /// The file format string, line terminator removed.
    pub file_format: String,
    /// Whether the column after the eight mandatory ones is the END column.
    pub has_end_column: bool,
    /// The sample names, in column order; absent iff the file carries no
    /// genotype data. The names are raw tokens, so the final one carries
    /// the header line's terminator if the line had one.
    pub sample_names: Option<Vec<String>>,
    /// The metadata lines after the format line, verbatim.
    pub header_lines: Vec<String>,
    /// How many bytes of the stream the header occupies (terminators
    /// included), so a fresh stream can be fast-forwarded past it without
    /// re-parsing.
    pub size: usize,
}

/// What `parse_header` promises of a header it returns, given the lines it
/// consumed: `lines[0]` is the format line, `lines[1..k]` the remaining
/// metadata lines, `lines[k]` the column-header line.
pub open spec fn header_ok(h: VcfHeader, lines: Seq<Seq<char>>, k: int) -> bool {
    let cols = spec_split(lines[k], '\t');
    &&& h.file_format@ == strip_line_end(lines[0].skip(format_marker().len() as int))
    &&& h.header_lines.deep_view() == lines.subrange(1, k)
    &&& h.has_end_column == spec_has_end(cols)
    &&& match h.sample_names {
        Some(ns) => spec_has_samples(cols) && ns.deep_view() == spec_sample_names(cols),
        None => !spec_has_samples(cols),
    }
    &&& h.size as nat == clamp_usize(lines_byte_len(lines.take(k + 1)))
}

/// Whether a line opens with the metadata marker `##`. The first such run
/// of lines, plus the one line after it, is what `parse_header` consumes.
pub fn is_metadata_line(s: &str) -> (r: bool)
    ensures
        r == has_prefix(s@, metadata_marker()),
{
    proof {
        reveal_strlit("##");
        assert(("##")@ =~= metadata_marker());
    }
    starts_with_prefix(s, "##")
}

fn is_format_line(s: &str) -> (r: bool)
    ensures
        r == has_prefix(s@, format_marker()),
{
    proof {
        reveal_strlit("##fileformat=");
        assert(("##fileformat=")@ =~= format_marker());
    }
    starts_with_prefix(s, "##fileformat=")
}

fn add_clamped(a: usize, b: usize) -> (r: usize)
    ensures
        r as nat == clamp_usize(a as nat + b as nat),
{
    if a > usize::MAX - b {
        usize::MAX
    } else {
        a + b
    }
}

/// A source to decode: where it lives, whether it is gzip-compressed, and
/// the header parsed from it once. Opening the byte source itself is the
/// caller's affair.
#[derive(Debug)]
pub struct VcfFile {
    /// Where the source lives.
    pub path: String,
    /// Whether the source is gzip-compressed.
    pub compressed: bool,
    /// The header parsed once from the source.
    pub header: VcfHeader,
}

impl VcfFile {
    /// Assemble a file description from its parsed header.
    pub fn new(path: String, compressed: bool, header: VcfHeader) -> (r: VcfFile)
        ensures
            r.path@ == path@,
            r.compressed == compressed,
            r.header == header,
    {
        VcfFile { path, compressed, header }
    }

    /// Where the source lives.
    pub fn path(&self) -> (r: &str)
        ensures
            r@ == self.path@,
    {
        self.path.as_str()
    }

    /// Whether the source is gzip-compressed.
    pub fn compressed(&self) -> (r: bool)
        ensures
            r == self.compressed,
    {
        self.compressed
    }

    /// Parse the header from the leading lines of a stream, terminators
    /// included: the format line, every following metadata line, and the
    /// column-header line. Fails with `MissingFormatMarker` when the first
    /// line does not declare the file format, and with `MissingHeaderLine`
    /// when the lines end before a non-metadata line appears or that line
    /// does not open with `#`. Lines after the column-header line are
    /// ignored.
    #[verifier::loop_isolation(false)]
    pub fn parse_header(lines: &Vec<String>) -> (r: Result<VcfHeader, VcfError>)
        ensures
            ({
                let dv = lines.deep_view();
                match r {
                    Err(VcfError::MissingFormatMarker) => dv.len() == 0 || !has_prefix(
                        dv[0],
                        format_marker(),
                    ),
                    Err(VcfError::MissingHeaderLine) => dv.len() > 0 && has_prefix(
                        dv[0],
                        format_marker(),
                    ) && match first_non_meta_from(dv, 1) {
                        None => true,
                        Some(k) => !(dv[k].len() > 0 && dv[k][0] == '#'),
                    },
                    Err(_) => false,
                    Ok(h) => dv.len() > 0 && has_prefix(dv[0], format_marker()) && match
                        first_non_meta_from(dv, 1) {
                        None => false,
                        Some(k) => dv[k].len() > 0 && dv[k][0] == '#' && header_ok(h, dv, k),
                    },
                }
            }),
    {
        let ghost dv = lines.deep_view();
        let nl = lines.len();
        if nl == 0 {
            return Err(VcfError::MissingFormatMarker);
        }
        let line0: &String = &lines[0];
        proof {
            assert(dv[0] == line0@);
        }
        if !is_format_line(line0.as_str()) {
            return Err(VcfError::MissingFormatMarker);
        }
        let s0 = line0.as_str();
        let n0 = s0.unicode_len();
        let mut e0 = n0;
        if e0 > 13 && s0.get_char(e0 - 1) == '\n' {
            e0 = e0 - 1;
        }
        if e0 > 13 && s0.get_char(e0 - 1) == '\r' {
            e0 = e0 - 1;
        }
        proof {
            assert(format_marker().len() == 13);
        }
        let file_format = s0.substring_char(13, e0).to_owned();
        proof {
            assert(file_format@ =~= strip_line_end(dv[0].skip(13)));
        }
        let mut sz = s0.len();
        proof {
            let t1 = dv.take(1);
            assert(t1.len() == 1);
            assert(t1.drop_last() =~= Seq::<Seq<char>>::empty());
            assert(t1.last() == dv[0]);
            assert(lines_byte_len(Seq::<Seq<char>>::empty()) == 0);
            assert(lines_byte_len(t1) == line_byte_len(dv[0]) as nat);
            assert(s0@ == dv[0]);
            assert(sz == vstd::utf8::encode_utf8(dv[0]).len() as usize);
            assert(sz as nat == clamp_usize(lines_byte_len(t1)));
        }
        let mut header_lines: Vec<String> = Vec::new();
        let mut k: usize = 1;
        while k < nl && is_metadata_line(lines[k].as_str())
            invariant
                1 <= k <= nl,
                first_non_meta_from(dv, 1) == first_non_meta_from(dv, k as int),
                header_lines.deep_view() == dv.subrange(1, k as int),
                sz as nat == clamp_usize(lines_byte_len(dv.take(k as int))),
            decreases nl - k,
        {
            let ghost prev = header_lines.deep_view();
            let lk: &String = &lines[k];
            header_lines.push(lk.clone());
            sz = add_clamped(sz, lk.as_str().len());
            proof {
                assert(header_lines.deep_view() =~= prev.push(dv[k as int]));
                assert(header_lines.deep_view() =~= dv.subrange(1, k + 1 as int));
                assert(dv.take(k + 1 as int).drop_last() =~= dv.take(k as int));
                assert(dv.take(k + 1 as int).last() == dv[k as int]);
            }
            k = k + 1;
        }
        if k == nl {
            return Err(VcfError::MissingHeaderLine);
        }
        let hline: &String = &lines[k];
        proof {
            assert(first_non_meta_from(dv, k as int) == Some(k as int));
        }
        let hs = hline.as_str();
        let hn = hs.unicode_len();
        if hn == 0 || hs.get_char(0) != '#' {
            return Err(VcfError::MissingHeaderLine);
        }
        sz = add_clamped(sz, hs.len());
        proof {
            assert(dv.take(k + 1 as int).drop_last() =~= dv.take(k as int));
            assert(dv.take(k + 1 as int).last() == dv[k as int]);
        }
        let cols = split_char(hs, '\t');
        let ghost cv = spec_split(dv[k as int], '\t');
        let mut has_end = false;
        if cols.len() > 8 {
            let c8: &String = &cols[8];
            proof {
                assert(c8@ == cv[8]);
            }
            let c8s = c8.as_str();
            if c8s.unicode_len() > 0 && c8s.get_char(0) == 'E' {
                has_end = true;
            }
        }
        proof {
            assert(has_end == spec_has_end(cv));
        }
        let fidx: usize = if has_end {
            9
        } else {
            8
        };
        let mut sample_names: Option<Vec<String>> = None;
        if cols.len() > fidx {
            let cf: &String = &cols[fidx];
            proof {
                assert(cf@ == cv[fidx as int]);
            }
            let cfs = cf.as_str();
            if cfs.unicode_len() > 0 && cfs.get_char(0) == 'F' {
                let mut names: Vec<String> = Vec::new();
                let mut t = fidx + 1;
                proof {
                    assert(names.deep_view() =~= cv.subrange(fidx + 1 as int, fidx + 1 as int));
                }
                while t < cols.len()
                    invariant
                        fidx + 1 <= t <= cols.len(),
                        names.deep_view() == cv.subrange(fidx + 1 as int, t as int),
                    decreases cols.len() - t,
                {
                    let ghost prev = names.deep_view();
                    let ct: &String = &cols[t];
                    names.push(ct.clone());
                    proof {
                        assert(names.deep_view() =~= prev.push(cv[t as int]));
                        assert(names.deep_view() =~= cv.subrange(fidx + 1 as int, t + 1 as int));
                    }
                    t = t + 1;
                }
                proof {
                    assert(names.deep_view() =~= spec_sample_names(cv));
                }
                sample_names = Some(names);
            }
        }
        proof {
            assert(match sample_names {
                Some(ns) => spec_has_samples(cv) && ns.deep_view() == spec_sample_names(cv),
                None => !spec_has_samples(cv),
            });
        }
        Ok(
            VcfHeader {
                file_format,
                has_end_column: has_end,
                sample_names,
                header_lines,
                size: sz,
            },
        )
    }
}

} // verus!
