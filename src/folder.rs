use vstd::prelude::*;
use vstd::multiset::Multiset;

verus! {

/// One immediate child of a scanned root and the total byte size of its subtree.
pub struct FolderInfo {
    pub path: String,
    pub size: u64,
}

impl Clone for FolderInfo {
    fn clone(&self) -> (r: Self)
        ensures
            r == *self,
    {
        FolderInfo { path: self.path.clone(), size: self.size }
    }
}

/// Every element is at least as large as every element after it.
pub open spec fn sorted_desc(s: Seq<FolderInfo>) -> bool {
    forall|i: int, j: int| 0 <= i < j < s.len() ==> s[i].size >= s[j].size
}

/// The number of leading elements of `s` whose size is at least `x.size`.
pub open spec fn insert_pos(s: Seq<FolderInfo>, x: FolderInfo) -> nat
    decreases s.len(),
{
    if s.len() == 0 || s[0].size < x.size {
        0
    } else {
        1 + insert_pos(s.drop_first(), x)
    }
}

/// `x` placed after the leading elements that are at least as large, so that
/// equal sizes keep the order in which they arrived.
pub open spec fn insert_desc(s: Seq<FolderInfo>, x: FolderInfo) -> Seq<FolderInfo> {
    s.insert(insert_pos(s, x) as int, x)
}

/// The stable sort of `s` by descending size: each element in turn is inserted
/// behind those already placed that are at least as large.
pub open spec fn sort_desc(s: Seq<FolderInfo>) -> Seq<FolderInfo>
    decreases s.len(),
{
    if s.len() == 0 {
        s
    } else {
        insert_desc(sort_desc(s.drop_last()), s.last())
    }
}

proof fn lemma_insert_pos_bounds(s: Seq<FolderInfo>, x: FolderInfo)
    ensures
        insert_pos(s, x) <= s.len(),
        forall|j: int| 0 <= j < insert_pos(s, x) ==> s[j].size >= x.size,
        insert_pos(s, x) < s.len() ==> s[insert_pos(s, x) as int].size < x.size,
    decreases s.len(),
{
    if s.len() > 0 && s[0].size >= x.size {
        lemma_insert_pos_bounds(s.drop_first(), x);
        assert forall|j: int| 0 <= j < insert_pos(s, x) implies s[j].size >= x.size by {
            if j > 0 {
                assert(s[j] == s.drop_first()[j - 1]);
            }
        }
    }
}

proof fn lemma_insert_pos_exact(s: Seq<FolderInfo>, x: FolderInfo, p: int)
    requires
        0 <= p <= s.len(),
        forall|j: int| 0 <= j < p ==> s[j].size >= x.size,
        p < s.len() ==> s[p].size < x.size,
    ensures
        insert_pos(s, x) == p,
    decreases p,
{
    if p > 0 {
        let t = s.drop_first();
        assert forall|j: int| 0 <= j < p - 1 implies t[j].size >= x.size by {
            assert(t[j] == s[j + 1]);
        }
        if p - 1 < t.len() {
            assert(t[p - 1] == s[p]);
        }
        lemma_insert_pos_exact(t, x, p - 1);
    }
}

proof fn lemma_insert_desc_sorted(s: Seq<FolderInfo>, x: FolderInfo)
    requires
        sorted_desc(s),
    ensures
        sorted_desc(insert_desc(s, x)),
        insert_desc(s, x).to_multiset() == s.to_multiset().insert(x),
{
    lemma_insert_pos_bounds(s, x);
    let p = insert_pos(s, x) as int;
    let r = insert_desc(s, x);
    assert forall|i: int, j: int| 0 <= i < j < r.len() implies r[i].size >= r[j].size by {
        if j < p {
        } else if j == p {
        } else if i < p {
            assert(r[j] == s[j - 1]);
        } else if i == p {
            assert(r[j] == s[j - 1]);
            assert(s[p].size < x.size);
        } else {
            assert(r[j] == s[j - 1]);
        }
    }
    s.to_multiset_ensures();
    vstd::seq_lib::lemma_seq_union_to_multiset_commutative(s.take(p), s.skip(p));
    assert(s == s.take(p) + s.skip(p));
    assert(r == s.take(p) + seq![x] + s.skip(p));
    vstd::seq_lib::lemma_multiset_commutative(s.take(p) + seq![x], s.skip(p));
    vstd::seq_lib::lemma_multiset_commutative(s.take(p), seq![x]);
    vstd::seq_lib::lemma_multiset_commutative(s.take(p), s.skip(p));
    assert(seq![x].to_multiset() =~= Multiset::empty().insert(x)) by {
        assert(seq![x] == Seq::<FolderInfo>::empty().push(x));
        Seq::<FolderInfo>::empty().to_multiset_ensures();
    }
}

/// The stable descending sort is ordered by size and holds the same elements.
pub proof fn lemma_sort_desc(s: Seq<FolderInfo>)
    ensures
        sorted_desc(sort_desc(s)),
        forall|i: int| 0 <= i < sort_desc(s).len() - 1 ==> #[trigger] sort_desc(s)[i].size >= sort_desc(s)[i + 1].size,
        sort_desc(s).to_multiset() == s.to_multiset(),
        sort_desc(s).len() == s.len(),
    decreases s.len(),
{
    if s.len() > 0 {
        lemma_sort_desc(s.drop_last());
        lemma_insert_desc_sorted(sort_desc(s.drop_last()), s.last());
        assert(s == s.drop_last().push(s.last()));
        s.drop_last().to_multiset_ensures();
    }
    sort_desc(s).to_multiset_ensures();
}

/// Sorts `items` by descending size; items of equal size keep their order.
pub fn sort_by_size_desc(items: Vec<FolderInfo>) -> (r: Vec<FolderInfo>)
    ensures
        r@ == sort_desc(items@),
        sorted_desc(r@),
        r@.to_multiset() == items@.to_multiset(),
{
    let mut out: Vec<FolderInfo> = Vec::new();
    let n = items.len();
    let mut i: usize = 0;
    while i < n
        invariant
            n == items.len(),
            i <= n,
            out@ == sort_desc(items@.take(i as int)),
        decreases n - i,
    {
        let x = items[i].clone();
        proof {
            lemma_sort_desc(items@.take(i as int));
        }
        let mut p: usize = 0;
        while p < out.len() && out[p].size >= x.size
            invariant
                p <= out.len(),
                forall|j: int| 0 <= j < p ==> out@[j].size >= x.size,
            decreases out.len() - p,
        {
            p = p + 1;
        }
        proof {
            lemma_insert_pos_exact(out@, x, p as int);
            let t = items@.take(i as int + 1);
            assert(t.drop_last() == items@.take(i as int));
            assert(t.last() == x);
        }
        out.insert(p, x);
        i = i + 1;
    }
    proof {
        assert(items@.take(n as int) == items@);
        lemma_sort_desc(items@);
    }
    out
}

} // verus!
