//! Splitting a file name at its first extension dot, used by front-ends to
//! derive output file names.

use vstd::prelude::*;

verus! {

/// The byte value of `'.'`.
pub const DOT: u8 = 46;

/// `i` is the first dot position after the leading byte: a dot stands at
/// `i >= 1` and none before it (a leading dot marks a hidden file, not an
/// extension).
pub open spec fn first_dot_at(s: Seq<u8>, i: int) -> bool {
    &&& 1 <= i < s.len()
    &&& s[i] == DOT
    &&& forall|j: int| 1 <= j < i ==> s[j] != DOT
}

fn sub_vec(v: &Vec<u8>, from: usize, to: usize) -> (r: Vec<u8>)
    requires
        from <= to <= v@.len(),
    ensures
        r@ == v@.subrange(from as int, to as int),
{
    let mut r: Vec<u8> = Vec::new();
    let mut k = from;
    while k < to
        invariant
            from <= k <= to <= v@.len(),
            r@ =~= v@.subrange(from as int, k as int),
        decreases to - k,
    {
        r.push(v[k]);
        k = k + 1;
    }
    assert(r@ =~= v@.subrange(from as int, to as int));
    r
}

/// Split a file name into the part before its first extension dot and the
/// part after it.
///
/// The name `..` and a name without a dot past its first byte come back
/// whole with no extension; otherwise the result is the prefix before the
/// first such dot and the remainder after it.
pub fn split_file_at_dot(file: &Vec<u8>) -> (r: (Vec<u8>, Option<Vec<u8>>))
    ensures
        file@ == seq![DOT, DOT] ==> r.0@ == file@ && r.1 is None,
        file@ != seq![DOT, DOT] && (exists|i: int| first_dot_at(file@, i)) ==> {
            let i = choose|i: int| first_dot_at(file@, i);
            &&& r.0@ == file@.subrange(0, i)
            &&& r.1 is Some
            &&& r.1.unwrap()@ == file@.subrange(i + 1, file@.len() as int)
        },
        file@ != seq![DOT, DOT] && !(exists|i: int| first_dot_at(file@, i)) ==> r.0@ == file@
            && r.1 is None,
{
    let n = file.len();
    if n == 2 && file[0] == DOT && file[1] == DOT {
        assert(file@ =~= seq![DOT, DOT]);
        return (sub_vec(file, 0, n), None);
    }
    assert(file@ != seq![DOT, DOT]);
    let mut k: usize = 1;
    while k < n
        invariant
            1 <= k,
            n == file@.len(),
            k <= n || n == 0,
            forall|j: int| 1 <= j < k ==> file@[j] != DOT,
            file@ != seq![DOT, DOT],
        decreases n - k,
    {
        if file[k] == DOT {
            assert(first_dot_at(file@, k as int));
            let before = sub_vec(file, 0, k);
            let after = sub_vec(file, k + 1, n);
            proof {
                let i = choose|i: int| first_dot_at(file@, i);
                if i < k {
                    assert(file@[i] != DOT);
                }
                if k < i {
                    assert(file@[k as int] != DOT);
                }
                assert(i == k as int);
            }
            return (before, Some(after));
        }
        k = k + 1;
    }
    proof {
        if exists|i: int| first_dot_at(file@, i) {
            let i = choose|i: int| first_dot_at(file@, i);
            assert(file@[i] != DOT);
            assert(false);
        }
    }
    (sub_vec(file, 0, n), None)
}

} // verus!
