//! Ordering songs by title.

use vstd::multiset::Multiset;
use vstd::prelude::*;

use crate::protocol::{Song, SongMeta};
use crate::text::{lemma_text_le_total, lemma_text_le_transitive, str_le, text_le};

verus! {

/// Things that have a title to be ordered by.
pub trait Titled {
    spec fn title_text(&self) -> Seq<char>;

    fn title_str(&self) -> (res: &str)
        ensures
            res@ == self.title_text(),
    ;
}

impl Titled for SongMeta {
    open spec fn title_text(&self) -> Seq<char> {
        self.title@
    }

    fn title_str(&self) -> (res: &str) {
        self.title.as_str()
    }
}

impl Titled for Song {
    open spec fn title_text(&self) -> Seq<char> {
        self.title@
    }

    fn title_str(&self) -> (res: &str) {
        self.title.as_str()
    }
}

impl Titled for String {
    open spec fn title_text(&self) -> Seq<char> {
        self@
    }

    fn title_str(&self) -> (res: &str) {
        self.as_str()
    }
}

/// Whether the titles ascend along `s`.
pub open spec fn sorted_by_title<T: Titled>(s: Seq<T>) -> bool {
    forall|i: int, j: int|
        0 <= i < j < s.len() ==> text_le(#[trigger] s[i].title_text(), #[trigger] s[j].title_text())
}

/// Where `x` goes into the sorted `v`: before the first item whose title is
/// not below `x`'s.
fn insertion_point<T: Titled>(v: &Vec<T>, x: &T) -> (k: usize)
    ensures
        k <= v@.len(),
        forall|j: int| 0 <= j < k ==> !text_le(x.title_text(), #[trigger] v@[j].title_text()),
        k < v@.len() ==> text_le(x.title_text(), v@[k as int].title_text()),
{
    let mut k: usize = 0;
    while k < v.len()
        invariant
            k <= v@.len(),
            forall|j: int| 0 <= j < k ==> !text_le(x.title_text(), #[trigger] v@[j].title_text()),
        decreases v@.len() - k,
    {
        if str_le(x.title_str(), v[k].title_str()) {
            return k;
        }
        k = k + 1;
    }
    k
}

/// Sorts by title: the same items, in the order of their titles.
pub fn sort_by_title<T: Titled>(v: Vec<T>) -> (res: Vec<T>)
    ensures
        res@.to_multiset() == v@.to_multiset(),
        sorted_by_title(res@),
{
    broadcast use vstd::seq_lib::group_to_multiset_ensures;

    let ghost orig = v@;
    let mut rest = v;
    let mut res: Vec<T> = Vec::new();
    while rest.len() > 0
        invariant
            rest@.to_multiset().add(res@.to_multiset()) == orig.to_multiset(),
            sorted_by_title(res@),
        decreases rest.len(),
    {
        let ghost before_rest = rest@;
        let ghost before = res@;
        let x = rest.pop().unwrap();
        assert(before_rest =~= rest@.push(x));
        let k = insertion_point(&res, &x);
        res.insert(k, x);
        proof {
            assert(res@ =~= before.insert(k as int, x));
            vstd::seq_lib::to_multiset_insert(before, k as int, x);
            rest@.to_multiset_ensures();
            assert(rest@.push(x).to_multiset() =~= rest@.to_multiset().insert(x));
            assert(before_rest.to_multiset() == rest@.to_multiset().insert(x));
            assert(rest@.to_multiset().add(res@.to_multiset()) =~= before_rest.to_multiset().add(
                before.to_multiset(),
            ));
            assert forall|i: int, j: int| 0 <= i < j < res@.len() implies text_le(
                #[trigger] res@[i].title_text(),
                #[trigger] res@[j].title_text(),
            ) by {
                if j == k {
                    lemma_text_le_total(x.title_text(), before[i].title_text());
                } else if i == k {
                    let e = before[j - 1];
                    if k < j - 1 {
                        lemma_text_le_transitive(
                            x.title_text(),
                            before[k as int].title_text(),
                            e.title_text(),
                        );
                    }
                } else {
                    let bi = if i < k { i } else { i - 1 };
                    let bj = if j < k { j } else { j - 1 };
                    assert(res@[i] == before[bi]);
                    assert(res@[j] == before[bj]);
                }
            }
        }
    }
    assert(rest@.to_multiset() =~= Multiset::empty());
    res
}

} // verus!
