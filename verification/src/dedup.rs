//! Lists of strings in which nothing occurs twice.

use vstd::prelude::*;
use crate::text::{same_text, texts};

verus! {

/// The items of `items` without repetitions: of equal items the first stays,
/// and what stays keeps its order.
pub open spec fn deduplicated(items: Seq<Seq<char>>) -> Seq<Seq<char>>
    decreases items.len(),
{
    if items.len() == 0 {
        Seq::empty()
    } else {
        let init = deduplicated(items.drop_last());
        if init.contains(items.last()) {
            init
        } else {
            init.push(items.last())
        }
    }
}

/// In a deduplicated list nothing occurs twice, and it holds exactly the
/// items of the list that it was made from.
pub proof fn lemma_deduplicated(items: Seq<Seq<char>>)
    ensures
        deduplicated(items).no_duplicates(),
        deduplicated(items).len() <= items.len(),
        forall|x: Seq<char>| deduplicated(items).contains(x) <==> items.contains(x),
    decreases items.len(),
{
    if items.len() > 0 {
        let init = items.drop_last();
        lemma_deduplicated(init);
        let d = deduplicated(init);
        assert forall|x: Seq<char>| deduplicated(items).contains(x) <==> items.contains(x) by {
            if items.contains(x) {
                let i = choose|i: int| 0 <= i < items.len() && items[i] == x;
                if i < items.len() - 1 {
                    assert(init[i] == x);
                    assert(init.contains(x));
                    assert(d.contains(x));
                    let j = choose|j: int| 0 <= j < d.len() && d[j] == x;
                    assert(deduplicated(items)[j] == x);
                } else {
                    if d.contains(x) {
                    } else {
                        assert(deduplicated(items)[d.len() as int] == x);
                    }
                }
            }
            if deduplicated(items).contains(x) {
                let j = choose|j: int| 0 <= j < deduplicated(items).len() && deduplicated(items)[j] == x;
                if j < d.len() {
                    assert(d[j] == x);
                    assert(d.contains(x));
                    assert(init.contains(x));
                    let i = choose|i: int| 0 <= i < init.len() && init[i] == x;
                    assert(items[i] == x);
                } else {
                    assert(items[items.len() - 1] == x);
                }
            }
        }
    }
}

/// Deduplicating a list in which nothing occurs twice changes nothing.
pub proof fn lemma_deduplicated_is_idempotent(items: Seq<Seq<char>>)
    requires
        items.no_duplicates(),
    ensures
        deduplicated(items) == items,
    decreases items.len(),
{
    if items.len() > 0 {
        let init = items.drop_last();
        lemma_deduplicated_is_idempotent(init);
        lemma_deduplicated(init);
        if init.contains(items.last()) {
            let i = choose|i: int| 0 <= i < init.len() && init[i] == items.last();
            assert(items[i] == items[items.len() - 1]);
        }
        assert(init.push(items.last()) =~= items);
    }
}

/// Whether `items` holds a string of the characters of `wanted`.
pub fn contains_text(items: &Vec<String>, wanted: &str) -> (r: bool)
    ensures
        r == texts(items@).contains(wanted@),
{
    let mut i: usize = 0;
    while i < items.len()
        invariant
            i <= items.len(),
            forall|k: int| 0 <= k < i ==> texts(items@)[k] != wanted@,
        decreases items.len() - i,
    {
        assert(texts(items@)[i as int] == items@[i as int]@);
        if same_text(items[i].as_str(), wanted) {
            return true;
        }
        i = i + 1;
    }
    false
}

/// The items of `items` without repetitions.
pub fn unique_texts(items: &Vec<String>) -> (r: Vec<String>)
    ensures
        texts(r@) == deduplicated(texts(items@)),
        texts(r@).no_duplicates(),
{
    let mut out: Vec<String> = Vec::new();
    let mut i: usize = 0;
    assert(texts(items@).take(0) =~= Seq::empty());
    assert(texts(out@) =~= Seq::empty());
    while i < items.len()
        invariant
            i <= items.len(),
            texts(out@) == deduplicated(texts(items@).take(i as int)),
        decreases items.len() - i,
    {
        let ghost upto = texts(items@).take(i + 1);
        proof {
            assert(upto.drop_last() =~= texts(items@).take(i as int));
            assert(upto.last() == items@[i as int]@);
        }
        if !contains_text(&out, items[i].as_str()) {
            let ghost before = texts(out@);
            out.push(items[i].clone());
            assert(texts(out@) =~= before.push(items@[i as int]@));
        }
        i = i + 1;
    }
    proof {
        assert(texts(items@).take(items.len() as int) =~= texts(items@));
        lemma_deduplicated(texts(items@));
    }
    out
}

} // verus!
