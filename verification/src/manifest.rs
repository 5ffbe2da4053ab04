//! Manifest resolution: classifying a fetched playlist and extracting the
//! ordered work list of segment URLs.
//!
//! A manifest is the raw byte content of a fetched document. Its lines are
//! split on the line-feed byte, with one trailing carriage return stripped
//! from each line. A *URL line* begins with the scheme marker `http`; a
//! *segment line* is a URL line that also holds one of the two segment-file
//! markers, `.ts` or `.bin`.

use vstd::prelude::*;

use crate::errors::PipelineError;
use crate::views;

verus! {

/// Line-feed byte.
pub const LINE_FEED: u8 = 10;

/// Carriage-return byte.
pub const CARRIAGE_RETURN: u8 = 13;

/// Index of the first line-feed byte at or after `from`, or the length of
/// `s` if there is none.
pub open spec fn find_newline(s: Seq<u8>, from: int) -> int
    recommends
        0 <= from,
    decreases s.len() - from when from <= s.len()
{
    if from >= s.len() {
        s.len() as int
    } else if s[from] == LINE_FEED {
        from
    } else {
        find_newline(s, from + 1)
    }
}

/// A line with one trailing carriage return removed, if it ends in one.
pub open spec fn chomp_cr(line: Seq<u8>) -> Seq<u8> {
    if line.len() > 0 && line.last() == CARRIAGE_RETURN {
        line.drop_last()
    } else {
        line
    }
}

/// The lines of `s` starting at position `from`: maximal runs of bytes
/// between line-feed bytes, each with a trailing carriage return stripped.
/// A trailing line feed does not open an extra empty line.
pub open spec fn lines_from(s: Seq<u8>, from: int) -> Seq<Seq<u8>>
    recommends
        0 <= from,
    decreases s.len() + 1 - from when 0 <= from via lines_from_decreases
{
    if from >= s.len() {
        Seq::empty()
    } else {
        let j = find_newline(s, from);
        seq![chomp_cr(s.subrange(from, j))] + lines_from(s, j + 1)
    }
}

#[via_fn]
proof fn lines_from_decreases(s: Seq<u8>, from: int) {
    if from < s.len() {
        lemma_find_newline_in_range(s, from);
    }
}

/// The lines of a manifest's byte content.
pub open spec fn spec_lines(s: Seq<u8>) -> Seq<Seq<u8>> {
    lines_from(s, 0)
}

proof fn lemma_find_newline_in_range(s: Seq<u8>, from: int)
    requires
        0 <= from <= s.len(),
    ensures
        from <= find_newline(s, from) <= s.len(),
        find_newline(s, from) < s.len() ==> s[find_newline(s, from)] == LINE_FEED,
    decreases s.len() - from,
{
    if from < s.len() && s[from] != LINE_FEED {
        lemma_find_newline_in_range(s, from + 1);
    }
}

/// Splits a manifest's content into its lines.
pub fn split_lines(content: &Vec<u8>) -> (lines: Vec<Vec<u8>>)
    ensures
        views(lines@) == spec_lines(content@),
{
    let n = content.len();
    let mut lines: Vec<Vec<u8>> = Vec::new();
    let mut pos: usize = 0;
    while pos < n
        invariant
            n == content@.len(),
            pos <= n,
            spec_lines(content@) =~= views(lines@) + lines_from(content@, pos as int),
        decreases n - pos,
    {
        let mut j: usize = pos;
        while j < n && content[j] != LINE_FEED
            invariant
                n == content@.len(),
                pos <= j <= n,
                find_newline(content@, pos as int) == find_newline(content@, j as int),
            decreases n - j,
        {
            assert(find_newline(content@, j as int) == find_newline(content@, j + 1 as int));
            j = j + 1;
        }
        assert(find_newline(content@, j as int) == j);
        let ghost jj = j as int;

        let mut line: Vec<u8> = Vec::new();
        let mut k: usize = pos;
        while k < j
            invariant
                n == content@.len(),
                pos <= k <= j <= n,
                line@ =~= content@.subrange(pos as int, k as int),
            decreases j - k,
        {
            line.push(content[k]);
            k = k + 1;
        }
        assert(line@ =~= content@.subrange(pos as int, jj));
        if line.len() > 0 && line[line.len() - 1] == CARRIAGE_RETURN {
            let _ = line.pop();
            assert(line@ =~= content@.subrange(pos as int, jj).drop_last());
        }
        assert(line@ == chomp_cr(content@.subrange(pos as int, jj)));
        lines.push(line);
        assert(lines_from(content@, pos as int) == seq![chomp_cr(content@.subrange(pos as int, jj))]
            + lines_from(content@, jj + 1));
        assert(views(lines@) =~= views(lines@.drop_last()) + seq![lines@.last()@]);
        if j < n {
            pos = j + 1;
        } else {
            assert(lines_from(content@, jj + 1) =~= lines_from(content@, n as int));
            pos = n;
        }
    }
    assert(lines_from(content@, pos as int) =~= Seq::<Seq<u8>>::empty());
    assert(views(lines@) =~= views(lines@) + Seq::<Seq<u8>>::empty());
    lines
}

/// A URL line begins with the scheme marker `http`.
pub open spec fn is_url_line(line: Seq<u8>) -> bool {
    line.len() >= 4 && line[0] == 104 && line[1] == 116 && line[2] == 116 && line[3] == 112
}

/// The segment-file marker `.ts` stands at position `i` of the line.
pub open spec fn ts_marker_at(line: Seq<u8>, i: int) -> bool {
    0 <= i && i + 3 <= line.len() && line[i] == 46 && line[i + 1] == 116 && line[i + 2] == 115
}

/// The segment-file marker `.bin` stands at position `i` of the line.
pub open spec fn bin_marker_at(line: Seq<u8>, i: int) -> bool {
    0 <= i && i + 4 <= line.len() && line[i] == 46 && line[i + 1] == 98 && line[i + 2] == 105
        && line[i + 3] == 110
}

/// A segment line is a URL line holding one of the two segment-file markers.
pub open spec fn is_segment_line(line: Seq<u8>) -> bool {
    is_url_line(line) && ((exists|i: int| ts_marker_at(line, i)) || (exists|i: int|
        bin_marker_at(line, i)))
}

/// Some line of the manifest is a URL line.
pub open spec fn has_url_line(ls: Seq<Seq<u8>>) -> bool {
    exists|i: int| 0 <= i < ls.len() && is_url_line(ls[i])
}

/// Some line of the manifest is a segment line.
pub open spec fn has_segment_line(ls: Seq<Seq<u8>>) -> bool {
    exists|i: int| 0 <= i < ls.len() && is_segment_line(ls[i])
}

/// The segment lines of a manifest, in file order.
pub open spec fn segment_lines(ls: Seq<Seq<u8>>) -> Seq<Seq<u8>>
    decreases ls.len(),
{
    if ls.len() == 0 {
        Seq::empty()
    } else if is_segment_line(ls.last()) {
        segment_lines(ls.drop_last()).push(ls.last())
    } else {
        segment_lines(ls.drop_last())
    }
}

/// The URL lines of a manifest, in file order.
pub open spec fn url_lines(ls: Seq<Seq<u8>>) -> Seq<Seq<u8>>
    decreases ls.len(),
{
    if ls.len() == 0 {
        Seq::empty()
    } else if is_url_line(ls.last()) {
        url_lines(ls.drop_last()).push(ls.last())
    } else {
        url_lines(ls.drop_last())
    }
}

/// The last URL line of a manifest; meaningful only when one exists.
pub open spec fn last_url_line(ls: Seq<Seq<u8>>) -> Seq<u8>
    decreases ls.len(),
{
    if ls.len() == 0 {
        Seq::empty()
    } else if is_url_line(ls.last()) {
        ls.last()
    } else {
        last_url_line(ls.drop_last())
    }
}

/// A manifest has a segment line exactly when its list of segment lines is
/// not empty.
pub proof fn lemma_has_segment_line_iff(ls: Seq<Seq<u8>>)
    ensures
        has_segment_line(ls) <==> segment_lines(ls).len() > 0,
    decreases ls.len(),
{
    if ls.len() > 0 {
        lemma_has_segment_line_iff(ls.drop_last());
        if has_segment_line(ls.drop_last()) {
            let i = choose|i: int| 0 <= i < ls.drop_last().len() && is_segment_line(
                ls.drop_last()[i],
            );
            assert(ls[i] == ls.drop_last()[i]);
        }
        if has_segment_line(ls) && !is_segment_line(ls.last()) {
            let i = choose|i: int| 0 <= i < ls.len() && is_segment_line(ls[i]);
            assert(i < ls.len() - 1);
            assert(is_segment_line(ls.drop_last()[i]));
        }
    }
}

/// For a manifest whose URL lines all carry a segment-file marker — the
/// ordinary shape of a secondary playlist — extracting the URL lines is
/// extracting the segment lines: the work list is exactly its segment
/// lines, in file order.
pub proof fn lemma_url_lines_are_segment_lines(ls: Seq<Seq<u8>>)
    requires
        forall|i: int| 0 <= i < ls.len() && is_url_line(#[trigger] ls[i]) ==> is_segment_line(
            ls[i],
        ),
    ensures
        url_lines(ls) == segment_lines(ls),
    decreases ls.len(),
{
    if ls.len() > 0 {
        assert(forall|i: int|
            0 <= i < ls.drop_last().len() && is_url_line(#[trigger] ls.drop_last()[i])
                ==> is_segment_line(ls.drop_last()[i]));
        lemma_url_lines_are_segment_lines(ls.drop_last());
    }
}

/// `last_url_line` is the URL line that no later URL line follows.
pub proof fn lemma_last_url_line_characterizes(ls: Seq<Seq<u8>>, i: int)
    requires
        0 <= i < ls.len(),
        is_url_line(ls[i]),
        forall|j: int| i < j < ls.len() ==> !is_url_line(ls[j]),
    ensures
        last_url_line(ls) == ls[i],
    decreases ls.len(),
{
    if i == ls.len() - 1 {
    } else {
        assert(!is_url_line(ls.last()));
        assert(ls.drop_last()[i] == ls[i]);
        assert(forall|j: int| i < j < ls.drop_last().len() ==> !is_url_line(
            #[trigger] ls.drop_last()[j],
        ));
        lemma_last_url_line_characterizes(ls.drop_last(), i);
    }
}

/// Decides whether a line is a URL line.
pub fn is_url_line_exec(line: &Vec<u8>) -> (r: bool)
    ensures
        r == is_url_line(line@),
{
    line.len() >= 4 && line[0] == 104 && line[1] == 116 && line[2] == 116 && line[3] == 112
}

/// Decides whether a line holds the `.ts` marker.
fn contains_ts_marker(line: &Vec<u8>) -> (r: bool)
    ensures
        r == exists|i: int| ts_marker_at(line@, i),
{
    let n = line.len();
    if n < 3 {
        assert(forall|i: int| !ts_marker_at(line@, i));
        return false;
    }
    let mut k: usize = 0;
    while k <= n - 3
        invariant
            n == line@.len(),
            3 <= n,
            k <= n - 2,
            forall|i: int| 0 <= i < k ==> !ts_marker_at(line@, i),
        decreases n - k,
    {
        if line[k] == 46 && line[k + 1] == 116 && line[k + 2] == 115 {
            assert(ts_marker_at(line@, k as int));
            return true;
        }
        k = k + 1;
    }
    assert(forall|i: int| !ts_marker_at(line@, i));
    false
}

/// Decides whether a line holds the `.bin` marker.
fn contains_bin_marker(line: &Vec<u8>) -> (r: bool)
    ensures
        r == exists|i: int| bin_marker_at(line@, i),
{
    let n = line.len();
    if n < 4 {
        assert(forall|i: int| !bin_marker_at(line@, i));
        return false;
    }
    let mut k: usize = 0;
    while k <= n - 4
        invariant
            n == line@.len(),
            4 <= n,
            k <= n - 3,
            forall|i: int| 0 <= i < k ==> !bin_marker_at(line@, i),
        decreases n - k,
    {
        if line[k] == 46 && line[k + 1] == 98 && line[k + 2] == 105 && line[k + 3] == 110 {
            assert(bin_marker_at(line@, k as int));
            return true;
        }
        k = k + 1;
    }
    assert(forall|i: int| !bin_marker_at(line@, i));
    false
}

/// Decides whether a line is a segment line.
pub fn is_segment_line_exec(line: &Vec<u8>) -> (r: bool)
    ensures
        r == is_segment_line(line@),
{
    is_url_line_exec(line) && (contains_ts_marker(line) || contains_bin_marker(line))
}

/// Decides whether a manifest already lists media segments directly, that
/// is, whether any of its lines is a segment line.
pub fn contains_direct_segments(content: &Vec<u8>) -> (r: bool)
    ensures
        r == has_segment_line(spec_lines(content@)),
{
    let lines = split_lines(content);
    let ghost ls = spec_lines(content@);
    let mut i: usize = 0;
    while i < lines.len()
        invariant
            ls == spec_lines(content@),
            views(lines@) == ls,
            i <= lines@.len(),
            forall|j: int| 0 <= j < i ==> !is_segment_line(ls[j]),
        decreases lines@.len() - i,
    {
        if is_segment_line_exec(&lines[i]) {
            assert(ls[i as int] == lines@[i as int]@);
            assert(has_segment_line(ls)) by {
                assert(ls.len() == lines@.len());
                assert(0 <= i < ls.len() && is_segment_line(ls[i as int]));
            }
            return true;
        }
        i = i + 1;
    }
    false
}

/// One entry of the work list: a segment URL and the segment's position in
/// final playback order.
pub struct SegmentRef {
    /// Position of the segment in the output, dense and 0-based.
    pub index: usize,
    /// The URL the segment is fetched from.
    pub url: Vec<u8>,
}

/// The URLs of a work list, in order.
pub open spec fn ref_urls(refs: Seq<SegmentRef>) -> Seq<Seq<u8>> {
    refs.map_values(|r: SegmentRef| r.url@)
}

/// Each entry's index is its position in the work list.
pub open spec fn well_indexed(refs: Seq<SegmentRef>) -> bool {
    forall|i: int| 0 <= i < refs.len() ==> (#[trigger] refs[i]).index == i
}

/// Keeps exactly the segment lines of a manifest, in file order.
fn filter_segment_lines(lines: Vec<Vec<u8>>) -> (segs: Vec<Vec<u8>>)
    ensures
        views(segs@) == segment_lines(views(lines@)),
{
    let ghost orig: Seq<Vec<u8>> = lines@;
    let mut rest = lines;
    let mut segs: Vec<Vec<u8>> = Vec::new();
    let ghost mut k: int = 0;
    while rest.len() > 0
        invariant
            0 <= k <= orig.len(),
            rest@ == orig.subrange(k, orig.len() as int),
            views(segs@) =~= segment_lines(views(orig.take(k))),
        decreases rest@.len(),
    {
        let l = rest.remove(0);
        assert(l == orig[k]);
        let keep = is_segment_line_exec(&l);
        proof {
            assert(views(orig.take(k + 1)).drop_last() =~= views(orig.take(k)));
            assert(views(orig.take(k + 1)).last() == orig[k]@);
        }
        if keep {
            segs.push(l);
        }
        proof {
            k = k + 1;
            assert(rest@ =~= orig.subrange(k, orig.len() as int));
        }
    }
    proof {
        assert(views(orig.take(k)) =~= views(orig));
    }
    segs
}

/// Keeps exactly the URL lines of a manifest, in file order.
fn filter_url_lines(lines: Vec<Vec<u8>>) -> (urls: Vec<Vec<u8>>)
    ensures
        views(urls@) == url_lines(views(lines@)),
{
    let ghost orig: Seq<Vec<u8>> = lines@;
    let mut rest = lines;
    let mut urls: Vec<Vec<u8>> = Vec::new();
    let ghost mut k: int = 0;
    while rest.len() > 0
        invariant
            0 <= k <= orig.len(),
            rest@ == orig.subrange(k, orig.len() as int),
            views(urls@) =~= url_lines(views(orig.take(k))),
        decreases rest@.len(),
    {
        let l = rest.remove(0);
        assert(l == orig[k]);
        let keep = is_url_line_exec(&l);
        proof {
            assert(views(orig.take(k + 1)).drop_last() =~= views(orig.take(k)));
            assert(views(orig.take(k + 1)).last() == orig[k]@);
        }
        if keep {
            urls.push(l);
        }
        proof {
            k = k + 1;
            assert(rest@ =~= orig.subrange(k, orig.len() as int));
        }
    }
    proof {
        assert(views(orig.take(k)) =~= views(orig));
    }
    urls
}

/// Takes the last URL line out of a manifest's lines, if one exists.
fn take_last_url_line(lines: Vec<Vec<u8>>) -> (r: Option<Vec<u8>>)
    ensures
        match r {
            Some(u) => has_url_line(views(lines@)) && u@ == last_url_line(views(lines@)),
            None => !has_url_line(views(lines@)),
        },
{
    let mut rest = lines;
    let mut i: usize = rest.len();
    while i > 0
        invariant
            rest@ == lines@,
            i <= lines@.len(),
            forall|j: int| i <= j < lines@.len() ==> !is_url_line(#[trigger] views(lines@)[j]),
        decreases i,
    {
        i = i - 1;
        if is_url_line_exec(&rest[i]) {
            assert(views(lines@)[i as int] == rest@[i as int]@);
            let u = rest.swap_remove(i);
            proof {
                lemma_last_url_line_characterizes(views(lines@), i as int);
            }
            return Some(u);
        }
    }
    assert(!has_url_line(views(lines@)));
    None
}

/// Turns an extracted URL list into the work list, assigning each entry its
/// position as index. An empty URL list is the empty work list, which the
/// pipeline rejects before any download is attempted.
pub fn make_work_list(urls: Vec<Vec<u8>>) -> (r: Result<Vec<SegmentRef>, PipelineError>)
    ensures
        urls@.len() == 0 ==> r == Err::<Vec<SegmentRef>, PipelineError>(
            PipelineError::NoSegmentsFound,
        ),
        urls@.len() > 0 ==> (r matches Ok(refs) && well_indexed(refs@) && ref_urls(refs@) == views(
            urls@,
        )),
{
    if urls.len() == 0 {
        return Err(PipelineError::NoSegmentsFound);
    }
    let ghost orig: Seq<Vec<u8>> = urls@;
    let mut rest = urls;
    let mut refs: Vec<SegmentRef> = Vec::new();
    while rest.len() > 0
        invariant
            refs@.len() + rest@.len() == orig.len(),
            rest@ == orig.subrange(refs@.len() as int, orig.len() as int),
            well_indexed(refs@),
            ref_urls(refs@) =~= views(orig.take(refs@.len() as int)),
        decreases rest@.len(),
    {
        let idx = refs.len();
        let ghost k: int = idx as int;
        let u = rest.remove(0);
        assert(u == orig[k]);
        refs.push(SegmentRef { index: idx, url: u });
        proof {
            assert(ref_urls(refs@) =~= views(orig.take(k)).push(orig[k]@));
            assert(views(orig.take(k + 1)) =~= views(orig.take(k)).push(orig[k]@));
            assert(rest@ =~= orig.subrange(refs@.len() as int, orig.len() as int));
        }
    }
    proof {
        assert(views(orig.take(refs@.len() as int)) =~= views(orig));
    }
    Ok(refs)
}

/// What resolution finds in the root manifest: either the work list itself,
/// or the URL of the secondary manifest that must be followed.
pub enum Resolution {
    /// The root manifest lists the segments directly.
    Direct(Vec<SegmentRef>),
    /// The root manifest refers to a secondary manifest at this URL.
    Follow(Vec<u8>),
}

/// Resolves the root manifest. If any line is a segment line, the manifest
/// lists segments directly and the work list is exactly its segment lines,
/// in file order, with indices assigned by position. Otherwise the last URL
/// line names the secondary manifest to follow; if there is none, resolution
/// fails.
pub fn resolve_root(content: &Vec<u8>) -> (r: Result<Resolution, PipelineError>)
    ensures
        ({
            let ls = spec_lines(content@);
            &&& has_segment_line(ls) ==> (r matches Ok(res) && res matches Resolution::Direct(refs)
                && well_indexed(refs@) && ref_urls(refs@) == segment_lines(ls))
            &&& (!has_segment_line(ls) && has_url_line(ls)) ==> (r matches Ok(res)
                && res matches Resolution::Follow(u) && u@ == last_url_line(ls))
            &&& (!has_segment_line(ls) && !has_url_line(ls)) ==> r == Err::<
                Resolution,
                PipelineError,
            >(PipelineError::ManifestParse)
        }),
{
    let ghost ls = spec_lines(content@);
    if contains_direct_segments(content) {
        let lines = split_lines(content);
        let segs = filter_segment_lines(lines);
        proof {
            lemma_has_segment_line_iff(ls);
        }
        match make_work_list(segs) {
            Ok(refs) => Ok(Resolution::Direct(refs)),
            Err(e) => Err(e),
        }
    } else {
        let lines = split_lines(content);
        match take_last_url_line(lines) {
            Some(u) => Ok(Resolution::Follow(u)),
            None => Err(PipelineError::ManifestParse),
        }
    }
}

/// Resolves a secondary manifest: the work list is exactly its URL lines,
/// in file order, with indices assigned by position. An empty work list is
/// rejected with `NoSegmentsFound`.
pub fn resolve_secondary(content: &Vec<u8>) -> (r: Result<Vec<SegmentRef>, PipelineError>)
    ensures
        ({
            let us = url_lines(spec_lines(content@));
            &&& us.len() == 0 ==> r == Err::<Vec<SegmentRef>, PipelineError>(
                PipelineError::NoSegmentsFound,
            )
            &&& us.len() > 0 ==> (r matches Ok(refs) && well_indexed(refs@) && ref_urls(refs@)
                == us)
        }),
{
    let lines = split_lines(content);
    let urls = filter_url_lines(lines);
    make_work_list(urls)
}

} // verus!

