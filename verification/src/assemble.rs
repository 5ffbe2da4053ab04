//! The ordered assembler's logic: placing downloaded segment blobs by their
//! index and concatenating them, in ascending index order, into the single
//! output byte stream.
//!
//! The caller reads the persisted blobs from the scratch area and hands
//! them over as `(index, bytes)` pairs, in any order; assembly fails rather
//! than skip if any index of the work list is missing.

use vstd::arithmetic::div_mod::{
    lemma_div_is_ordered, lemma_fundamental_div_mod, lemma_fundamental_div_mod_converse,
    lemma_mod_bound,
};
use vstd::arithmetic::power::pow;
use vstd::pervasive::VecAdditionalExecFns;
use vstd::prelude::*;

use crate::errors::PipelineError;
use crate::views;

verus! {

/// The concatenation of a sequence of byte sequences, in order.
pub open spec fn concat_seqs(bs: Seq<Seq<u8>>) -> Seq<u8>
    decreases bs.len(),
{
    if bs.len() == 0 {
        Seq::empty()
    } else {
        concat_seqs(bs.drop_last()) + bs.last()
    }
}

/// The sum of the lengths of a sequence of byte sequences.
pub open spec fn total_len(bs: Seq<Seq<u8>>) -> nat
    decreases bs.len(),
{
    if bs.len() == 0 {
        0
    } else {
        total_len(bs.drop_last()) + bs.last().len()
    }
}

/// The concatenation's length is the sum of the parts' lengths.
pub proof fn lemma_concat_len(bs: Seq<Seq<u8>>)
    ensures
        concat_seqs(bs).len() == total_len(bs),
    decreases bs.len(),
{
    if bs.len() > 0 {
        lemma_concat_len(bs.drop_last());
    }
}

/// Concatenates the blobs, in the order given, into one byte vector.
pub fn concat_blobs(blobs: &Vec<Vec<u8>>) -> (out: Vec<u8>)
    ensures
        out@ == concat_seqs(views(blobs@)),
        out@.len() == total_len(views(blobs@)),
{
    let mut out: Vec<u8> = Vec::new();
    let mut i: usize = 0;
    while i < blobs.len()
        invariant
            i <= blobs@.len(),
            out@ =~= concat_seqs(views(blobs@).take(i as int)),
        decreases blobs@.len() - i,
    {
        let b: &Vec<u8> = &blobs[i];
        let mut k: usize = 0;
        while k < b.len()
            invariant
                i < blobs@.len(),
                b@ == views(blobs@)[i as int],
                k <= b@.len(),
                out@ =~= concat_seqs(views(blobs@).take(i as int)) + b@.take(k as int),
            decreases b@.len() - k,
        {
            out.push(b[k]);
            assert(b@.take(k + 1 as int) =~= b@.take(k as int).push(b@[k as int]));
            k = k + 1;
        }
        proof {
            assert(b@.take(b@.len() as int) =~= b@);
            assert(views(blobs@).take(i + 1 as int).drop_last() =~= views(blobs@).take(i as int));
            assert(views(blobs@).take(i + 1 as int).last() == b@);
        }
        i = i + 1;
    }
    proof {
        assert(views(blobs@).take(blobs@.len() as int) =~= views(blobs@));
        lemma_concat_len(views(blobs@));
    }
    out
}

/// The ASCII byte of the decimal digit `d`.
pub open spec fn digit_byte(d: int) -> u8 {
    (48 + d) as u8
}

/// The fixed-width decimal spelling of `i`: `n` digits, most significant
/// first, zero-padded.
pub open spec fn pad_digits(n: nat, i: int) -> Seq<u8>
    decreases n,
{
    if n == 0 {
        Seq::empty()
    } else {
        pad_digits((n - 1) as nat, i / 10).push(digit_byte(i % 10))
    }
}

/// The scratch file name of the segment at index `i`: five zero-padded
/// decimal digits and the fixed extension `.ts`.
pub open spec fn segment_name_spec(i: int) -> Seq<u8> {
    pad_digits(5, i) + seq![46u8, 116u8, 115u8]
}

/// Builds the scratch file name of the segment at `index`: a fixed-width,
/// zero-padded decimal index and the fixed extension, so that the names
/// sort in index order.
pub fn segment_name(index: usize) -> (r: Vec<u8>)
    requires
        index < 100000,
    ensures
        r@ == segment_name_spec(index as int),
{
    let i = index;
    let mut v: Vec<u8> = Vec::new();
    v.push(48 + ((i / 10000) % 10) as u8);
    v.push(48 + ((i / 1000) % 10) as u8);
    v.push(48 + ((i / 100) % 10) as u8);
    v.push(48 + ((i / 10) % 10) as u8);
    v.push(48 + (i % 10) as u8);
    v.push(46);
    v.push(116);
    v.push(115);
    proof {
        let ii = index as int;
        lemma_div_chain(ii);
        assert(pad_digits(5, ii) == pad_digits(4, ii / 10).push(digit_byte(ii % 10)));
        assert(pad_digits(4, ii / 10) == pad_digits(3, ii / 100).push(digit_byte(ii / 10 % 10)));
        assert(pad_digits(3, ii / 100) == pad_digits(2, ii / 1000).push(digit_byte(ii / 100 % 10)));
        assert(pad_digits(2, ii / 1000) == pad_digits(1, ii / 10000).push(
            digit_byte(ii / 1000 % 10),
        ));
        assert(pad_digits(1, ii / 10000) == pad_digits(0, ii / 100000).push(
            digit_byte(ii / 10000 % 10),
        ));
        assert(v@ =~= segment_name_spec(ii));
    }
    v
}

proof fn lemma_div_chain(i: int)
    requires
        0 <= i,
    ensures
        i / 10 / 10 == i / 100,
        i / 100 / 10 == i / 1000,
        i / 1000 / 10 == i / 10000,
{
    vstd::arithmetic::div_mod::lemma_div_denominator(i, 10, 10);
    vstd::arithmetic::div_mod::lemma_div_denominator(i, 100, 10);
    vstd::arithmetic::div_mod::lemma_div_denominator(i, 1000, 10);
}

/// `a` comes strictly before `b` in a lexicographic (bytewise) ordering:
/// at the first position where they differ, `a`'s byte is smaller.
pub open spec fn lex_less(a: Seq<u8>, b: Seq<u8>) -> bool {
    exists|k: int|
        0 <= k < a.len() && k < b.len() && (forall|p: int| 0 <= p < k ==> a[p] == b[p])
            && #[trigger] a[k] < #[trigger] b[k]
}

proof fn lemma_pad_digits_len(n: nat, i: int)
    ensures
        pad_digits(n, i).len() == n,
    decreases n,
{
    if n > 0 {
        lemma_pad_digits_len((n - 1) as nat, i / 10);
    }
}

proof fn lemma_pad_digits_order(n: nat, i: int, j: int)
    requires
        0 <= i < j < pow(10, n),
    ensures
        lex_less(pad_digits(n, i), pad_digits(n, j)),
    decreases n,
{
    reveal(pow);
    assert(n > 0) by {
        if n == 0 {
            assert(pow(10, 0) == 1);
        }
    }
    let a = pad_digits(n, i);
    let b = pad_digits(n, j);
    let pa = pad_digits((n - 1) as nat, i / 10);
    let pb = pad_digits((n - 1) as nat, j / 10);
    lemma_pad_digits_len(n, i);
    lemma_pad_digits_len(n, j);
    lemma_pad_digits_len((n - 1) as nat, i / 10);
    lemma_pad_digits_len((n - 1) as nat, j / 10);
    lemma_fundamental_div_mod(i, 10);
    lemma_fundamental_div_mod(j, 10);
    lemma_mod_bound(i, 10);
    lemma_mod_bound(j, 10);
    assert(pow(10, n) == 10 * pow(10, (n - 1) as nat));
    assert(j / 10 < pow(10, (n - 1) as nat)) by {
        lemma_div_is_ordered(j, pow(10, n) - 1, 10);
        vstd::arithmetic::power::lemma_pow_positive(10, (n - 1) as nat);
        lemma_fundamental_div_mod_converse(
            pow(10, n) - 1,
            10,
            pow(10, (n - 1) as nat) - 1,
            9,
        );
    }
    lemma_div_is_ordered(i, j, 10);
    if i / 10 == j / 10 {
        assert(i % 10 < j % 10);
        let k = n - 1;
        assert(forall|p: int| 0 <= p < k ==> a[p] == b[p]);
        assert(a[k] == digit_byte(i % 10));
        assert(b[k] == digit_byte(j % 10));
        assert(a[k] < b[k]);
    } else {
        lemma_pad_digits_order((n - 1) as nat, i / 10, j / 10);
        let k = choose|k: int|
            0 <= k < pa.len() && k < pb.len() && (forall|p: int| 0 <= p < k ==> pa[p] == pb[p])
                && #[trigger] pa[k] < #[trigger] pb[k];
        assert(a[k] == pa[k] && b[k] == pb[k]);
        assert(forall|p: int| 0 <= p < k ==> a[p] == b[p]);
        assert(a[k] < b[k]);
    }
}

/// Lexicographic order over the fixed-width zero-padded scratch file names
/// equals numeric order of the segment indices: sorting the scratch area by
/// name lists the blobs in ascending index order.
pub proof fn lemma_segment_name_order(i: int, j: int)
    requires
        0 <= i < j < 100000,
    ensures
        lex_less(segment_name_spec(i), segment_name_spec(j)),
{
    reveal(pow);
    assert(pow(10, 1) == 10 * pow(10, 0));
    assert(pow(10, 2) == 10 * pow(10, 1));
    assert(pow(10, 3) == 10 * pow(10, 2));
    assert(pow(10, 4) == 10 * pow(10, 3));
    assert(pow(10, 5) == 10 * pow(10, 4));
    assert(pow(10, 0) == 1);
    lemma_pad_digits_order(5, i, j);
    let pa = pad_digits(5, i);
    let pb = pad_digits(5, j);
    lemma_pad_digits_len(5, i);
    lemma_pad_digits_len(5, j);
    let a = segment_name_spec(i);
    let b = segment_name_spec(j);
    let k = choose|k: int|
        0 <= k < pa.len() && k < pb.len() && (forall|p: int| 0 <= p < k ==> pa[p] == pb[p])
            && #[trigger] pa[k] < #[trigger] pb[k];
    assert(a[k] == pa[k] && b[k] == pb[k]);
    assert(forall|p: int| 0 <= p < k ==> a[p] == b[p]);
    assert(a[k] < b[k]);
}

/// Some entry carries this index.
pub open spec fn index_covered(entries: Seq<(usize, Vec<u8>)>, i: int) -> bool {
    exists|j: int| 0 <= j < entries.len() && (#[trigger] entries[j]).0 == i
}

/// The entries carry exactly one blob for each index in `[0, total)`: no
/// index out of range, no index twice, none missing.
pub open spec fn complete_blob_set(entries: Seq<(usize, Vec<u8>)>, total: nat) -> bool {
    &&& forall|j: int| 0 <= j < entries.len() ==> (#[trigger] entries[j]).0 < total
    &&& forall|j1: int, j2: int|
        0 <= j1 < j2 < entries.len() ==> (#[trigger] entries[j1]).0 != (#[trigger] entries[j2]).0
    &&& forall|i: int| 0 <= i < total ==> #[trigger] index_covered(entries, i)
}

/// Places each blob at its index. Succeeds exactly when the entries carry
/// one blob per index of the work list; any missing, repeated or alien
/// index fails the whole assembly.
pub fn place_by_index(entries: Vec<(usize, Vec<u8>)>, total: usize) -> (r: Result<
    Vec<Vec<u8>>,
    PipelineError,
>)
    ensures
        (r is Ok <==> complete_blob_set(entries@, total as nat)),
        r matches Err(e) ==> e == PipelineError::Filesystem,
        r matches Ok(out) ==> out@.len() == total && forall|j: int|
            0 <= j < entries@.len() ==> views(out@)[(#[trigger] entries@[j]).0 as int]
                == entries@[j].1@,
{
    let ghost orig: Seq<(usize, Vec<u8>)> = entries@;
    let mut slots: Vec<Vec<u8>> = Vec::new();
    let mut filled: Vec<bool> = Vec::new();
    let mut i: usize = 0;
    while i < total
        invariant
            i <= total,
            slots@.len() == i,
            filled@.len() == i,
            forall|t: int| 0 <= t < i ==> !filled@[t],
        decreases total - i,
    {
        slots.push(Vec::new());
        filled.push(false);
        i = i + 1;
    }

    let mut rest = entries;
    let ghost mut k: int = 0;
    while rest.len() > 0
        invariant
            orig == entries@,
            0 <= k <= orig.len(),
            rest@ == orig.subrange(k, orig.len() as int),
            slots@.len() == total,
            filled@.len() == total,
            forall|j: int| 0 <= j < k ==> (#[trigger] orig[j]).0 < total,
            forall|j1: int, j2: int|
                0 <= j1 < j2 < k ==> (#[trigger] orig[j1]).0 != (#[trigger] orig[j2]).0,
            forall|t: int|
                0 <= t < total ==> (filled@[t] <==> exists|j: int|
                    0 <= j < k && (#[trigger] orig[j]).0 == t),
            forall|j: int|
                0 <= j < k ==> slots@[(#[trigger] orig[j]).0 as int]@ == orig[j].1@,
        decreases rest@.len(),
    {
        let (idx, blob) = rest.remove(0);
        assert((idx, blob) == orig[k]);
        if idx >= total {
            assert(!complete_blob_set(orig, total as nat)) by {
                assert(0 <= k < orig.len() && orig[k].0 >= total);
            }
            return Err(PipelineError::Filesystem);
        }
        if filled[idx] {
            proof {
                let j = choose|j: int| 0 <= j < k && (#[trigger] orig[j]).0 == idx as int;
                assert(!complete_blob_set(orig, total as nat)) by {
                    assert(0 <= j < k < orig.len() && orig[j].0 == orig[k].0);
                }
            }
            return Err(PipelineError::Filesystem);
        }
        slots.set(idx, blob);
        filled.set(idx, true);
        proof {
            k = k + 1;
            assert(rest@ =~= orig.subrange(k, orig.len() as int));
        }
    }
    assert(k == orig.len());

    let mut t: usize = 0;
    while t < total
        invariant
            orig == entries@,
            t <= total,
            slots@.len() == total,
            filled@.len() == total,
            forall|j: int| 0 <= j < orig.len() ==> (#[trigger] orig[j]).0 < total,
            forall|j1: int, j2: int|
                0 <= j1 < j2 < orig.len() ==> (#[trigger] orig[j1]).0 != (#[trigger] orig[j2]).0,
            forall|u: int|
                0 <= u < total ==> (filled@[u] <==> exists|j: int|
                    0 <= j < orig.len() && (#[trigger] orig[j]).0 == u),
            forall|j: int|
                0 <= j < orig.len() ==> slots@[(#[trigger] orig[j]).0 as int]@ == orig[j].1@,
            forall|u: int| 0 <= u < t ==> filled@[u],
        decreases total - t,
    {
        if !filled[t] {
            assert(!index_covered(orig, t as int));
            assert(!complete_blob_set(orig, total as nat));
            return Err(PipelineError::Filesystem);
        }
        t = t + 1;
    }
    assert(complete_blob_set(orig, total as nat)) by {
        assert(forall|u: int| 0 <= u < total ==> filled@[u]);
        assert forall|u: int| 0 <= u < total implies #[trigger] index_covered(orig, u) by {
            assert(filled@[u]);
        }
    }
    Ok(slots)
}

/// The blob an entry carries for index `i`; meaningful when exactly one
/// entry does.
pub open spec fn blob_for(entries: Seq<(usize, Vec<u8>)>, i: int) -> Seq<u8> {
    let j = choose|j: int| 0 <= j < entries.len() && (#[trigger] entries[j]).0 == i;
    entries[j].1@
}

/// The blobs of a complete entry set, in ascending index order.
pub open spec fn ordered_blobs(entries: Seq<(usize, Vec<u8>)>, total: nat) -> Seq<Seq<u8>> {
    Seq::new(total, |i: int| blob_for(entries, i))
}

/// Some entry carries exactly this index and these bytes.
pub open spec fn carries_pair(entries: Seq<(usize, Vec<u8>)>, i: int, blob: Seq<u8>) -> bool {
    exists|j: int|
        0 <= j < entries.len() && (#[trigger] entries[j]).0 == i && entries[j].1@ == blob
}

/// Assembly does not depend on completion order: two complete entry sets
/// that carry the same bytes for every index order their blobs alike, so
/// the assembled output is the same whatever order the segments finished
/// downloading in.
pub proof fn lemma_assembly_order_independent(
    e1: Seq<(usize, Vec<u8>)>,
    e2: Seq<(usize, Vec<u8>)>,
    total: nat,
)
    requires
        complete_blob_set(e1, total),
        complete_blob_set(e2, total),
        forall|j: int|
            0 <= j < e1.len() ==> carries_pair(e2, (#[trigger] e1[j]).0 as int, e1[j].1@),
    ensures
        ordered_blobs(e1, total) == ordered_blobs(e2, total),
{
    assert forall|i: int| 0 <= i < total implies blob_for(e1, i) == blob_for(e2, i) by {
        assert(index_covered(e1, i));
        assert(index_covered(e2, i));
        let j1 = choose|j: int| 0 <= j < e1.len() && (#[trigger] e1[j]).0 == i;
        let j2 = choose|j: int| 0 <= j < e2.len() && (#[trigger] e2[j]).0 == i;
        assert(carries_pair(e2, e1[j1].0 as int, e1[j1].1@));
        let jp = choose|j: int|
            0 <= j < e2.len() && (#[trigger] e2[j]).0 == e1[j1].0 as int && e2[j].1@ == e1[j1].1@;
        assert(e2[jp].0 == i && e2[j2].0 == i);
        if jp < j2 {
            assert(e2[jp].0 != e2[j2].0);
        } else if j2 < jp {
            assert(e2[j2].0 != e2[jp].0);
        }
        assert(jp == j2);
    }
    assert(ordered_blobs(e1, total) =~= ordered_blobs(e2, total));
}

/// Assembles the downloaded blobs into the output byte stream: one blob per
/// index, concatenated in ascending index order. The output's length is the
/// sum of the blob lengths, whatever order the blobs arrived in.
pub fn assemble(entries: Vec<(usize, Vec<u8>)>, total: usize) -> (r: Result<Vec<u8>, PipelineError>)
    ensures
        (r is Ok <==> complete_blob_set(entries@, total as nat)),
        r matches Err(e) ==> e == PipelineError::Filesystem,
        r matches Ok(out) ==> out@ == concat_seqs(ordered_blobs(entries@, total as nat))
            && out@.len() == total_len(ordered_blobs(entries@, total as nat)),
{
    let ghost orig: Seq<(usize, Vec<u8>)> = entries@;
    match place_by_index(entries, total) {
        Ok(slots) => {
            let out = concat_blobs(&slots);
            proof {
                let ordered = ordered_blobs(orig, total as nat);
                assert forall|i: int| 0 <= i < total implies views(slots@)[i] == ordered[i] by {
                    assert(index_covered(orig, i));
                    let j = choose|j: int| 0 <= j < orig.len() && (#[trigger] orig[j]).0 == i;
                    assert(views(slots@)[orig[j].0 as int] == orig[j].1@);
                }
                assert(views(slots@) =~= ordered);
                lemma_concat_len(ordered);
            }
            Ok(out)
        },
        Err(e) => Err(e),
    }
}

} // verus!
