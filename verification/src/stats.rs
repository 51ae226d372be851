//! Statistics reporter: aggregate and extremal timing metrics over the
//! reconstructed documents, as a pure function of the document sequence.

use vstd::prelude::*;
use vstd::arithmetic::div_mod::{lemma_div_is_ordered, lemma_div_multiples_vanish};
use vstd::arithmetic::mul::lemma_mul_inequality;
use crate::assemble::{all_wf, doc_models};
use crate::models::{DocModel, Document, LineType, PT_MS_BOUND};

verus! {

/// A printing time must exceed this many milliseconds — strictly — to be
/// counted as over the threshold.
pub const THRESHOLD_MS: i64 = 10_000;

/// The aggregate report over a sequence of documents.
#[derive(Debug, Clone, Copy, PartialEq, Eq, Structural)]
pub struct Summary {
    /// How many documents there are.
    pub total_documents: usize,
    /// How many documents closed with a connection failure.
    pub failed_connections: usize,
    /// The mean printing time over the documents that have one, in whole
    /// seconds truncated toward zero; zero when none has one.
    pub average_printing_time: i64,
    /// How many documents printed for strictly longer than the threshold.
    pub over_threshold_count: usize,
    /// How many documents contain at least one freeze.
    pub documents_with_freezes_count: usize,
    /// The position in the input of the document with the greatest defined
    /// printing time — the first such on ties — or `None` when no document
    /// has a defined printing time.
    pub longest_document: Option<usize>,
}

/// The document's close event records a connection failure.
pub open spec fn is_failed(d: DocModel) -> bool {
    match d.close {
        Some(c) => c.line_type == LineType::Close(false),
        None => false,
    }
}

pub open spec fn count_failed(docs: Seq<DocModel>) -> int
    decreases docs.len(),
{
    if docs.len() == 0 {
        0
    } else {
        count_failed(docs.drop_last()) + if is_failed(docs.last()) {
            1int
        } else {
            0int
        }
    }
}

pub open spec fn count_over_threshold(docs: Seq<DocModel>) -> int
    decreases docs.len(),
{
    if docs.len() == 0 {
        0
    } else {
        count_over_threshold(docs.drop_last()) + if docs.last().pt_defined() && docs.last().pt_ms()
            > THRESHOLD_MS as int {
            1int
        } else {
            0int
        }
    }
}

pub open spec fn count_with_freezes(docs: Seq<DocModel>) -> int
    decreases docs.len(),
{
    if docs.len() == 0 {
        0
    } else {
        count_with_freezes(docs.drop_last()) + if docs.last().freezes.len() > 0 {
            1int
        } else {
            0int
        }
    }
}

/// How many documents have a defined printing time.
pub open spec fn timed_count(docs: Seq<DocModel>) -> int
    decreases docs.len(),
{
    if docs.len() == 0 {
        0
    } else {
        timed_count(docs.drop_last()) + if docs.last().pt_defined() {
            1int
        } else {
            0int
        }
    }
}

/// The sum of the defined printing times, in milliseconds.
pub open spec fn sum_pt(docs: Seq<DocModel>) -> int
    decreases docs.len(),
{
    if docs.len() == 0 {
        0
    } else {
        sum_pt(docs.drop_last()) + if docs.last().pt_defined() {
            docs.last().pt_ms()
        } else {
            0int
        }
    }
}

/// Integer division truncated toward zero, for a positive divisor.
pub open spec fn trunc_div(a: int, b: int) -> int {
    if a >= 0 {
        a / b
    } else {
        -((-a) / b)
    }
}

/// The mean printing time in whole seconds, truncated toward zero; zero when
/// no document has a defined printing time, so the mean never divides by
/// zero.
pub open spec fn spec_average_seconds(docs: Seq<DocModel>) -> int {
    if timed_count(docs) == 0 {
        0
    } else {
        trunc_div(sum_pt(docs), timed_count(docs) * 1000)
    }
}

/// The index of the document with the greatest defined printing time, ties
/// resolved to the earliest index; `None` when no printing time is defined.
pub open spec fn spec_longest(docs: Seq<DocModel>) -> Option<int>
    decreases docs.len(),
{
    if docs.len() == 0 {
        None
    } else {
        let prev = spec_longest(docs.drop_last());
        let n = docs.len() - 1;
        if !docs[n].pt_defined() {
            prev
        } else {
            match prev {
                None => Some(n),
                Some(j) => if docs[n].pt_ms() > docs[j].pt_ms() {
                    Some(n)
                } else {
                    prev
                },
            }
        }
    }
}

/// Law: `spec_longest` is absent exactly when no document has a defined
/// printing time; otherwise it picks a document whose printing time no other
/// document exceeds, and every earlier document with a defined printing time
/// is strictly shorter — on ties the first in input order wins.
pub proof fn lemma_longest_is_first_maximum(docs: Seq<DocModel>)
    ensures
        spec_longest(docs) is None <==> (forall|k: int|
            0 <= k < docs.len() ==> !(#[trigger] docs[k]).pt_defined()),
        spec_longest(docs) matches Some(j) ==> {
            &&& 0 <= j < docs.len()
            &&& docs[j].pt_defined()
            &&& forall|k: int|
                0 <= k < docs.len() && (#[trigger] docs[k]).pt_defined() ==> docs[k].pt_ms()
                    <= docs[j].pt_ms()
            &&& forall|k: int|
                0 <= k < j && (#[trigger] docs[k]).pt_defined() ==> docs[k].pt_ms()
                    < docs[j].pt_ms()
        },
    decreases docs.len(),
{
    if docs.len() > 0 {
        lemma_longest_is_first_maximum(docs.drop_last());
        assert(forall|k: int| 0 <= k < docs.len() - 1 ==> docs.drop_last()[k] == #[trigger] docs[k]);
    }
}

/// Computes the aggregate report over the documents, in input order.
///
/// Every metric is fixed by the document sequence alone: the counts, the
/// truncated mean over the documents with a defined printing time (zero when
/// there are none), and the position of the longest document with ties going
/// to the earliest.
pub fn report(documents: &Vec<Document>) -> (s: Summary)
    requires
        all_wf(doc_models(documents@)),
    ensures
        ({
            let m = doc_models(documents@);
            &&& s.total_documents == m.len()
            &&& s.failed_connections == count_failed(m)
            &&& s.average_printing_time == spec_average_seconds(m)
            &&& s.over_threshold_count == count_over_threshold(m)
            &&& s.documents_with_freezes_count == count_with_freezes(m)
            &&& match spec_longest(m) {
                Some(j) => s.longest_document matches Some(u) && u as int == j,
                None => s.longest_document is None,
            }
        }),
{
    let ghost m = doc_models(documents@);
    let mut failed: usize = 0;
    let mut over: usize = 0;
    let mut with_freezes: usize = 0;
    let mut timed: usize = 0;
    let mut sum: i128 = 0;
    let mut best: Option<(usize, i64)> = None;
    let mut i: usize = 0;
    proof {
        assert(m.take(0) =~= Seq::<DocModel>::empty());
    }
    while i < documents.len()
        invariant
            i <= documents.len(),
            m == doc_models(documents@),
            m.len() == documents.len(),
            all_wf(m),
            failed <= i && failed == count_failed(m.take(i as int)),
            over <= i && over == count_over_threshold(m.take(i as int)),
            with_freezes <= i && with_freezes == count_with_freezes(m.take(i as int)),
            timed <= i && timed == timed_count(m.take(i as int)),
            sum == sum_pt(m.take(i as int)),
            -(timed as int) * (PT_MS_BOUND as int) <= sum as int <= (timed as int) * (
            PT_MS_BOUND as int),
            match best {
                Some((bj, bv)) => spec_longest(m.take(i as int)) == Some(bj as int) && bj < i
                    && m[bj as int].pt_defined() && bv == m[bj as int].pt_ms(),
                None => spec_longest(m.take(i as int)) is None,
            },
        decreases documents.len() - i,
    {
        proof {
            assert(m.take(i as int + 1).drop_last() =~= m.take(i as int));
            assert(m.take(i as int + 1).last() == m[i as int]);
            assert(m[i as int] == documents@[i as int]@);
            assert(forall|k: int|
                0 <= k <= i as int ==> m.take(i as int + 1)[k] == #[trigger] m[k]);
        }
        let d = &documents[i];
        match &d.close {
            Some(c) => {
                if matches!(c.line_type, LineType::Close(false)) {
                    failed += 1;
                }
            },
            None => {},
        }
        let has_fr = match &d.freeze {
            Some(v) => v.len() > 0,
            None => false,
        };
        if has_fr {
            with_freezes += 1;
        }
        match d.get_printing_time() {
            Some(pt) => {
                if pt > THRESHOLD_MS {
                    over += 1;
                }
                proof {
                    lemma_mul_inequality(
                        timed as int + 1,
                        0x1_0000_0000_0000_0000,
                        PT_MS_BOUND as int,
                    );
                    assert((timed as int + 1) * (PT_MS_BOUND as int) == (timed as int) * (
                    PT_MS_BOUND as int) + PT_MS_BOUND as int);
                }
                timed += 1;
                sum += pt as i128;
                let new_best = match best {
                    None => Some((i, pt)),
                    Some((bj, bv)) => if pt > bv {
                        Some((i, pt))
                    } else {
                        Some((bj, bv))
                    },
                };
                best = new_best;
            },
            None => {},
        }
        i += 1;
    }
    proof {
        assert(m.take(m.len() as int) =~= m);
    }
    let average_printing_time: i64 = average_from(sum, timed, Ghost(m));
    let longest_document: Option<usize> = match best {
        Some((bj, _)) => Some(bj),
        None => None,
    };
    Summary {
        total_documents: documents.len(),
        failed_connections: failed,
        average_printing_time,
        over_threshold_count: over,
        documents_with_freezes_count: with_freezes,
        longest_document,
    }
}

/// Divides the accumulated printing time by the number of timed documents,
/// truncating toward zero, and by a thousand down to seconds.
fn average_from(sum: i128, timed: usize, Ghost(m): Ghost<Seq<DocModel>>) -> (r: i64)
    requires
        sum == sum_pt(m),
        timed == timed_count(m),
        -(timed as int) * (PT_MS_BOUND as int) <= sum as int <= (timed as int) * (PT_MS_BOUND as int),
    ensures
        r == spec_average_seconds(m),
{
    if timed == 0 {
        return 0;
    }
    let divisor: u128 = (timed as u128) * 1000;
    proof {
        lemma_mul_inequality(timed as int, (timed as int) * 1000, PT_MS_BOUND as int);
        lemma_mul_inequality(1, timed as int, 1000);
        lemma_mul_inequality(timed as int, 0x1_0000_0000_0000_0000, PT_MS_BOUND as int);
    }
    if sum >= 0 {
        let q: u128 = (sum as u128) / divisor;
        proof {
            lemma_div_is_ordered(
                sum as int,
                (timed as int) * 1000 * (PT_MS_BOUND as int),
                (timed as int) * 1000,
            );
            lemma_div_multiples_vanish(PT_MS_BOUND as int, (timed as int) * 1000);
        }
        q as i64
    } else {
        let neg: i128 = -sum;
        let q: u128 = (neg as u128) / divisor;
        proof {
            lemma_div_is_ordered(
                neg as int,
                (timed as int) * 1000 * (PT_MS_BOUND as int),
                (timed as int) * 1000,
            );
            lemma_div_multiples_vanish(PT_MS_BOUND as int, (timed as int) * 1000);
        }
        -(q as i64)
    }
}

} // verus!
