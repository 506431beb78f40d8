//! Delimiter-based splitting of character sequences.
//!
//! Three flavours are needed by the decoder:
//! - `split_char`: the ordinary full split (empty pieces kept, an empty
//!   input yields one empty piece),
//! - `splitn_char`: a bounded split that stops after a fixed number of
//!   pieces, leaving the remainder untouched in the final piece, and
//! - `fast_split`: the hot-path split used for sample blocks, which yields
//!   no piece at all for an empty input and drops the empty piece a
//!   trailing delimiter would otherwise produce.

use vstd::prelude::*;

verus! {

/// Index of the first occurrence of `d` in `s`, if there is one.
pub open spec fn find_first(s: Seq<char>, d: char) -> Option<int>
    decreases s.len(),
{
    if s.len() == 0 {
        None
    } else if s[0] == d {
        Some(0int)
    } else {
        match find_first(s.skip(1), d) {
            None => None,
            Some(i) => Some(i + 1),
        }
    }
}

pub proof fn lemma_find_first_props(s: Seq<char>, d: char)
    ensures
        match find_first(s, d) {
            None => forall|j: int| 0 <= j < s.len() ==> s[j] != d,
            Some(i) => 0 <= i < s.len() && s[i] == d && (forall|j: int| 0 <= j < i ==> s[j] != d),
        },
    decreases s.len(),
{
    if s.len() > 0 && s[0] != d {
        lemma_find_first_props(s.skip(1), d);
        assert forall|j: int| 1 <= j < s.len() implies s[j] == s.skip(1)[j - 1] by {}
    }
}

/// If `d` first appears at index `i`, then `find_first` returns `i`.
pub proof fn lemma_find_first_at(s: Seq<char>, d: char, i: int)
    requires
        0 <= i < s.len(),
        s[i] == d,
        forall|j: int| 0 <= j < i ==> s[j] != d,
    ensures
        find_first(s, d) == Some(i),
    decreases i,
{
    if i > 0 {
        lemma_find_first_at(s.skip(1), d, i - 1);
    }
}

/// If `d` never appears in `s`, then `find_first` returns `None`.
pub proof fn lemma_find_first_none(s: Seq<char>, d: char)
    requires
        forall|j: int| 0 <= j < s.len() ==> s[j] != d,
    ensures
        find_first(s, d) == None::<int>,
    decreases s.len(),
{
    if s.len() > 0 {
        lemma_find_first_none(s.skip(1), d);
    }
}

/// The pieces of `s` between occurrences of `d`: empty pieces are kept,
/// and an empty input yields one empty piece.
pub open spec fn spec_split(s: Seq<char>, d: char) -> Seq<Seq<char>>
    decreases s.len(),
    via spec_split_decreases
{
    match find_first(s, d) {
        None => seq![s],
        Some(i) => seq![s.take(i)] + spec_split(s.skip(i + 1), d),
    }
}

#[via_fn]
proof fn spec_split_decreases(s: Seq<char>, d: char) {
    lemma_find_first_props(s, d);
}

/// Like `spec_split`, but producing at most `n` pieces: once only one
/// piece is allowed, the whole remainder becomes that piece, internal
/// delimiters untouched.
pub open spec fn spec_splitn(s: Seq<char>, d: char, n: nat) -> Seq<Seq<char>>
    decreases n,
    via spec_splitn_decreases
{
    if n <= 1 {
        seq![s]
    } else {
        match find_first(s, d) {
            None => seq![s],
            Some(i) => seq![s.take(i)] + spec_splitn(s.skip(i + 1), d, (n - 1) as nat),
        }
    }
}

#[via_fn]
proof fn spec_splitn_decreases(s: Seq<char>, d: char, n: nat) {
    lemma_find_first_props(s, d);
}

/// The split used on the hot path: an empty input yields no piece, and a
/// trailing delimiter does not produce a trailing empty piece.
pub open spec fn spec_fast_split(s: Seq<char>, d: char) -> Seq<Seq<char>>
    decreases s.len(),
    via spec_fast_split_decreases
{
    if s.len() == 0 {
        Seq::empty()
    } else {
        match find_first(s, d) {
            None => seq![s],
            Some(i) => seq![s.take(i)] + spec_fast_split(s.skip(i + 1), d),
        }
    }
}

#[via_fn]
proof fn spec_fast_split_decreases(s: Seq<char>, d: char) {
    lemma_find_first_props(s, d);
}

/// The pieces glued back together with `d` between them.
pub open spec fn spec_join(ps: Seq<Seq<char>>, d: char) -> Seq<char>
    decreases ps.len(),
{
    if ps.len() == 0 {
        Seq::empty()
    } else if ps.len() == 1 {
        ps[0]
    } else {
        ps[0] + seq![d] + spec_join(ps.skip(1), d)
    }
}

/// Splitting and re-joining on the same delimiter reproduces the input.
pub proof fn lemma_split_join_round_trip(s: Seq<char>, d: char)
    ensures
        spec_join(spec_split(s, d), d) == s,
    decreases s.len(),
{
    lemma_find_first_props(s, d);
    match find_first(s, d) {
        None => {
            assert(spec_join(seq![s], d) == s);
        },
        Some(i) => {
            lemma_split_join_round_trip(s.skip(i + 1), d);
            let rest = spec_split(s.skip(i + 1), d);
            assert(rest.len() > 0) by {
                lemma_split_nonempty(s.skip(i + 1), d);
            }
            let ps = seq![s.take(i)] + rest;
            assert(ps.skip(1) =~= rest);
            assert(spec_join(ps, d) =~= s.take(i) + seq![d] + s.skip(i + 1));
            assert(s.take(i) + seq![d] + s.skip(i + 1) =~= s);
        },
    }
}

/// A full split always yields at least one piece.
pub proof fn lemma_split_nonempty(s: Seq<char>, d: char)
    ensures
        spec_split(s, d).len() >= 1,
{
}

/// Scan forward from `from` for the next occurrence of `d`, returning the
/// length of `s` when there is none.
pub(crate) fn scan_to(s: &str, d: char, from: usize, n: usize) -> (i: usize)
    requires
        from <= n,
        n == s@.len(),
    ensures
        from <= i <= n,
        forall|j: int| from <= j < i ==> s@[j] != d,
        i < n ==> s@[i as int] == d,
        i == n ==> find_first(s@.skip(from as int), d) == None::<int>,
        i < n ==> find_first(s@.skip(from as int), d) == Some(i - from),
{
    let mut i = from;
    while i < n && s.get_char(i) != d
        invariant
            from <= i <= n,
            n == s@.len(),
            forall|j: int| from <= j < i ==> s@[j] != d,
        decreases n - i,
    {
        i += 1;
    }
    proof {
        let tail = s@.skip(from as int);
        assert forall|j: int| 0 <= j < i - from implies tail[j] != d by {
            assert(tail[j] == s@[from + j]);
        }
        if i == n {
            lemma_find_first_none(tail, d);
        } else {
            assert(tail[i - from] == s@[i as int]);
            lemma_find_first_at(tail, d, i - from);
        }
    }
    i
}

/// Split `s` at every occurrence of `d`, keeping empty pieces.
pub fn split_char(s: &str, d: char) -> (r: Vec<String>)
    ensures
        r.deep_view() == spec_split(s@, d),
{
    let n = s.unicode_len();
    let mut r: Vec<String> = Vec::new();
    let mut start: usize = 0;
    let mut done = false;
    proof {
        assert(s@.skip(0) =~= s@);
        assert(r.deep_view() + spec_split(s@, d) =~= spec_split(s@, d));
    }
    while !done
        invariant
            start <= n,
            n == s@.len(),
            !done ==> spec_split(s@, d) == r.deep_view() + spec_split(s@.skip(start as int), d),
            done ==> r.deep_view() == spec_split(s@, d),
        decreases n - start + (if done { 0int } else { 1int }),
    {
        let i = scan_to(s, d, start, n);
        let ghost prev = r.deep_view();
        let piece = s.substring_char(start, i).to_owned();
        r.push(piece);
        proof {
            assert(r.deep_view() =~= prev.push(s@.subrange(start as int, i as int)));
            assert(s@.subrange(start as int, i as int) =~= s@.skip(start as int).take(
                i - start as int,
            ));
        }
        if i == n {
            proof {
                assert(spec_split(s@.skip(start as int), d) == seq![s@.skip(start as int)]);
                assert(s@.subrange(start as int, i as int) =~= s@.skip(start as int));
                assert(r.deep_view() =~= prev + spec_split(s@.skip(start as int), d));
            }
            done = true;
        } else {
            proof {
                let tail = s@.skip(start as int);
                assert(spec_split(tail, d) == seq![tail.take(i - start as int)] + spec_split(
                    tail.skip(i - start as int + 1),
                    d,
                ));
                assert(tail.skip(i - start as int + 1) =~= s@.skip(i + 1));
                assert(r.deep_view() + spec_split(s@.skip(i + 1 as int), d) =~= prev + spec_split(
                    tail,
                    d,
                ));
            }
            start = i + 1;
        }
    }
    r
}

/// Split `s` at `d` into at most `n` pieces; the final piece carries the
/// untouched remainder, internal delimiters and all.
pub fn splitn_char(s: &str, d: char, n: usize) -> (r: Vec<String>)
    requires
        n >= 1,
    ensures
        r.deep_view() == spec_splitn(s@, d, n as nat),
{
    let len = s.unicode_len();
    let mut r: Vec<String> = Vec::new();
    let mut start: usize = 0;
    let mut left = n;
    let mut done = false;
    proof {
        assert(s@.skip(0) =~= s@);
        assert(r.deep_view() + spec_splitn(s@, d, n as nat) =~= spec_splitn(s@, d, n as nat));
    }
    while !done
        invariant
            start <= len,
            len == s@.len(),
            1 <= left <= n,
            !done ==> spec_splitn(s@, d, n as nat) == r.deep_view() + spec_splitn(
                s@.skip(start as int),
                d,
                left as nat,
            ),
            done ==> r.deep_view() == spec_splitn(s@, d, n as nat),
        decreases left + (if done { 0int } else { 1int }),
    {
        let ghost prev = r.deep_view();
        let ghost tail = s@.skip(start as int);
        if left == 1 {
            let piece = s.substring_char(start, len).to_owned();
            r.push(piece);
            proof {
                assert(r.deep_view() =~= prev.push(s@.subrange(start as int, len as int)));
                assert(s@.subrange(start as int, len as int) =~= tail);
                assert(spec_splitn(tail, d, 1nat) == seq![tail]);
                assert(r.deep_view() =~= prev + spec_splitn(tail, d, 1nat));
            }
            done = true;
        } else {
            let i = scan_to(s, d, start, len);
            let piece = s.substring_char(start, i).to_owned();
            r.push(piece);
            proof {
                assert(r.deep_view() =~= prev.push(s@.subrange(start as int, i as int)));
                assert(s@.subrange(start as int, i as int) =~= tail.take(i - start as int));
            }
            if i == len {
                proof {
                    assert(spec_splitn(tail, d, left as nat) == seq![tail]);
                    assert(s@.subrange(start as int, i as int) =~= tail);
                    assert(r.deep_view() =~= prev + spec_splitn(tail, d, left as nat));
                }
                done = true;
            } else {
                proof {
                    assert(spec_splitn(tail, d, left as nat) == seq![tail.take(i - start as int)]
                        + spec_splitn(tail.skip(i - start as int + 1), d, (left - 1) as nat));
                    assert(tail.skip(i - start as int + 1) =~= s@.skip(i + 1 as int));
                    assert(r.deep_view() + spec_splitn(s@.skip(i + 1 as int), d, (left - 1) as nat)
                        =~= prev + spec_splitn(tail, d, left as nat));
                }
                start = i + 1;
                left = left - 1;
            }
        }
    }
    r
}

/// Split `s` at every occurrence of the byte `delim`, read as a character:
/// an empty input yields no piece, and a trailing delimiter yields no
/// trailing empty piece.
pub fn fast_split(text: &str, delim: u8) -> (r: Vec<String>)
    ensures
        r.deep_view() == spec_fast_split(text@, delim as char),
{
    fast_split_char(text, delim as char)
}

/// `fast_split`, with the delimiter already a character.
pub fn fast_split_char(text: &str, d: char) -> (r: Vec<String>)
    ensures
        r.deep_view() == spec_fast_split(text@, d),
{
    let n = text.unicode_len();
    let mut r: Vec<String> = Vec::new();
    let mut start: usize = 0;
    proof {
        assert(text@.skip(0) =~= text@);
        assert(r.deep_view() + spec_fast_split(text@, d) =~= spec_fast_split(text@, d));
    }
    while start < n
        invariant
            start <= n,
            n == text@.len(),
            spec_fast_split(text@, d) == r.deep_view() + spec_fast_split(
                text@.skip(start as int),
                d,
            ),
        decreases n - start,
    {
        let ghost prev = r.deep_view();
        let ghost tail = text@.skip(start as int);
        let i = scan_to(text, d, start, n);
        let piece = text.substring_char(start, i).to_owned();
        r.push(piece);
        proof {
            assert(r.deep_view() =~= prev.push(text@.subrange(start as int, i as int)));
            assert(text@.subrange(start as int, i as int) =~= tail.take(i - start as int));
        }
        if i == n {
            proof {
                assert(spec_fast_split(tail, d) == seq![tail]);
                assert(text@.subrange(start as int, i as int) =~= tail);
                assert(r.deep_view() =~= prev + spec_fast_split(tail, d));
            }
            start = n;
            proof {
                assert(text@.skip(n as int) =~= Seq::<char>::empty());
                assert(spec_fast_split(text@.skip(n as int), d) == Seq::<Seq<char>>::empty());
                assert(r.deep_view() + spec_fast_split(text@.skip(n as int), d) =~= r.deep_view());
            }
        } else {
            proof {
                assert(spec_fast_split(tail, d) == seq![tail.take(i - start as int)]
                    + spec_fast_split(tail.skip(i - start as int + 1), d));
                assert(tail.skip(i - start as int + 1) =~= text@.skip(i + 1 as int));
                assert(r.deep_view() + spec_fast_split(text@.skip(i + 1 as int), d) =~= prev
                    + spec_fast_split(tail, d));
            }
            start = i + 1;
        }
    }
    proof {
        assert(text@.skip(start as int) =~= text@.skip(n as int));
        if start == n {
            assert(text@.skip(n as int) =~= Seq::<char>::empty());
        }
    }
    r
}

} // verus!
