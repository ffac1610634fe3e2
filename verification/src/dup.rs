//! Copies with a proved result: `Dup::dup` gives back a value with the same view.
use vstd::prelude::*;

verus! {

/// A type whose values can be copied, the copy having the same view.
pub trait Dup: View + Sized {
    fn dup(&self) -> (res: Self)
        ensures
            res@ == self@,
    ;
}

/// The views of the elements of `v`.
pub open spec fn views<T: View>(v: Seq<T>) -> Seq<T::V> {
    v.map_values(|x: T| x@)
}

/// A copy of every element of `v`.
pub fn dup_vec<T: Dup>(v: &Vec<T>) -> (res: Vec<T>)
    ensures
        views(res@) == views(v@),
{
    let mut res: Vec<T> = Vec::new();
    let mut i: usize = 0;
    while i < v.len()
        invariant
            i <= v@.len(),
            res@.len() == i,
            forall|j: int| 0 <= j < i ==> #[trigger] res@[j]@ == v@[j]@,
        decreases v@.len() - i,
    {
        let x = v[i].dup();
        res.push(x);
        i += 1;
    }
    assert(views(res@) =~= views(v@));
    res
}

impl Dup for String {
    fn dup(&self) -> (res: String) {
        self.clone()
    }
}

/// The view of an optional value, taken inside the option.
pub open spec fn opt_view<T: View>(o: Option<T>) -> Option<T::V> {
    match o {
        Some(x) => Some(x@),
        None => None,
    }
}

/// A copy of an optional value.
pub fn dup_opt<T: Dup>(o: &Option<T>) -> (res: Option<T>)
    ensures
        opt_view(res) == opt_view(*o),
{
    match o {
        Some(x) => Some(x.dup()),
        None => None,
    }
}

/// A copy of a list of strings.
pub fn dup_strings(v: &Vec<String>) -> (res: Vec<String>)
    ensures
        res@ == v@,
{
    let res = v.clone();
    assert(res@ =~= v@) by {
        assert forall|i: int| 0 <= i < v@.len() implies res@[i] == v@[i] by {
            assert(cloned::<String>(v[i], res[i]));
        }
    }
    res
}

} // verus!
