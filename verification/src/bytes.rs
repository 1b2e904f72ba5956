//! Byte-sequence comparison helpers shared across the crate.

use vstd::prelude::*;

verus! {

/// Whether two byte vectors hold the same bytes.
pub fn bytes_eq(a: &Vec<u8>, b: &Vec<u8>) -> (r: bool)
    ensures
        r == (a@ == b@),
{
    if a.len() != b.len() {
        assert(a@ != b@) by {
            assert(a@.len() != b@.len());
        }
        return false;
    }
    let mut i: usize = 0;
    while i < a.len()
        invariant
            a@.len() == b@.len(),
            i <= a@.len(),
            forall|j: int| 0 <= j < i ==> a@[j] == b@[j],
        decreases a@.len() - i,
    {
        if a[i] != b[i] {
            return false;
        }
        i = i + 1;
    }
    proof {
        assert(a@ =~= b@);
    }
    true
}

/// Whether two byte slices hold the same bytes.
pub fn slice_eq(a: &[u8], b: &[u8]) -> (r: bool)
    ensures
        r == (a@ == b@),
{
    if a.len() != b.len() {
        assert(a@ != b@) by {
            assert(a@.len() != b@.len());
        }
        return false;
    }
    let mut i: usize = 0;
    while i < a.len()
        invariant
            a@.len() == b@.len(),
            i <= a@.len(),
            forall|j: int| 0 <= j < i ==> a@[j] == b@[j],
        decreases a@.len() - i,
    {
        if a[i] != b[i] {
            return false;
        }
        i = i + 1;
    }
    proof {
        assert(a@ =~= b@);
    }
    true
}

/// Copies a list of byte arrays.
pub fn clone_bytes_list(v: &Vec<Vec<u8>>) -> (r: Vec<Vec<u8>>)
    ensures
        r.deep_view() == v.deep_view(),
{
    let mut r: Vec<Vec<u8>> = Vec::new();
    let mut i: usize = 0;
    while i < v.len()
        invariant
            i <= v@.len(),
            r.deep_view() =~= v.deep_view().take(i as int),
        decreases v@.len() - i,
    {
        let mut inner: Vec<u8> = Vec::new();
        let mut j: usize = 0;
        while j < v[i].len()
            invariant
                i < v@.len(),
                j <= v@[i as int]@.len(),
                inner@ == v@[i as int]@.take(j as int),
            decreases v@[i as int]@.len() - j,
        {
            inner.push(v[i][j]);
            proof {
                assert(v@[i as int]@.take(j + 1) =~= v@[i as int]@.take(j as int).push(
                    v@[i as int]@[j as int],
                ));
            }
            j = j + 1;
        }
        proof {
            assert(v@[i as int]@.take(v@[i as int]@.len() as int) =~= v@[i as int]@);
        }
        let ghost dv_before = r.deep_view();
        let ghost a_before = r@;
        r.push(inner);
        proof {
            assert(dv_before.len() == a_before.len());
            assert(dv_before.len() == i);
            assert(r@ == a_before.push(inner));
            assert forall|t: int| 0 <= t < r.deep_view().len() implies r.deep_view()[t]
                == v.deep_view().take(i + 1)[t] by {
                assert(r@[t] == a_before.push(inner)[t]);
                if t < i {
                    assert(r@[t] == a_before[t]);
                }
                if t < i {
                    assert(r.deep_view()[t] == a_before[t].deep_view());
                    assert(dv_before[t] == a_before[t].deep_view());
                    assert(dv_before[t] == v.deep_view().take(i as int)[t]);
                } else {
                    assert(r.deep_view()[t] == inner.deep_view());
                    assert(inner.deep_view() =~= v@[i as int]@);
                }
            }
            assert(r.deep_view() =~= v.deep_view().take(i + 1));
        }
        i = i + 1;
    }
    proof {
        assert(v.deep_view().take(v@.len() as int) =~= v.deep_view());
    }
    r
}

/// A byte vector's deep view is its view.
pub proof fn lemma_bytes_deep_view(v: &Vec<u8>)
    ensures
        v.deep_view() == v@,
{
    assert(v.deep_view() =~= v@);
}

/// Indexing the deep view of a list of byte arrays is viewing the element.
pub proof fn lemma_bytes_list_deep_view_index(v: &Vec<Vec<u8>>, i: int)
    requires
        0 <= i < v@.len(),
    ensures
        v.deep_view().len() == v@.len(),
        v.deep_view()[i] == v@[i]@,
{
    lemma_bytes_deep_view(&v@[i]);
}

/// Appends one byte array to a list, tracked at the deep-view level.
pub fn push_bytes(list: &mut Vec<Vec<u8>>, arg: Vec<u8>)
    ensures
        final(list)@ == old(list)@.push(arg),
        final(list).deep_view() == old(list).deep_view().push(arg@),
{
    let ghost a0 = list@;
    let ghost dv0 = list.deep_view();
    let ghost argv = arg@;
    proof {
        assert forall|j: int| 0 <= j < a0.len() implies dv0[j] == #[trigger] a0[j]@ by {
            lemma_bytes_list_deep_view_index(list, j);
        }
        assert(dv0.len() == a0.len());
    }
    list.push(arg);
    proof {
        assert forall|t: int| 0 <= t < list.deep_view().len() implies list.deep_view()[t]
            == dv0.push(argv)[t] by {
            lemma_bytes_list_deep_view_index(list, t);
            if t < a0.len() {
                assert(list@[t] == a0[t]);
            }
        }
        assert(list.deep_view() =~= dv0.push(argv));
    }
}

} // verus!
