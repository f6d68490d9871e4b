use crate::error::{DecodeError, Failure};
use crate::json::Json;
use vstd::prelude::*;

verus! {

/// A record that decodes from a JSON value.
pub trait Decode: Sized {
    /// `j` decodes to `v`.
    spec fn decodes_to(j: Json, v: Self) -> bool;

    /// The failure that decoding `j` stops at, if it fails.
    spec fn failure(j: Json) -> Option<Failure>;

    fn from_json(j: &Json) -> (r: Result<Self, DecodeError>)
        ensures
            match r {
                Ok(v) => Self::failure(*j) is None && Self::decodes_to(*j, v),
                Err(e) => Self::failure(*j) == Some(e@),
            },
    ;
}

/// The failure of the first element of `s` that does not decode.
pub open spec fn first_failure<T: Decode>(s: Seq<Json>) -> Option<Failure>
    decreases s.len(),
{
    if s.len() == 0 {
        None
    } else if T::failure(s[0]) is Some {
        T::failure(s[0])
    } else {
        first_failure::<T>(s.drop_first())
    }
}

/// `v` holds, in order, what each element of `s` decodes to.
pub open spec fn decodes_all<T: Decode>(s: Seq<Json>, v: Seq<T>) -> bool {
    &&& v.len() == s.len()
    &&& forall|i: int| 0 <= i < s.len() ==> T::decodes_to(#[trigger] s[i], v[i])
}

/// A sequence fails exactly when one of its elements fails.
pub proof fn lemma_first_failure<T: Decode>(s: Seq<Json>)
    ensures
        first_failure::<T>(s) is None <==> forall|i: int|
            0 <= i < s.len() ==> (T::failure(#[trigger] s[i]) is None),
    decreases s.len(),
{
    if s.len() > 0 {
        lemma_first_failure::<T>(s.drop_first());
        if T::failure(s[0]) is None {
            assert forall|i: int| 0 < i < s.len() implies #[trigger] s[i] == s.drop_first()[i
                - 1] by {}
        }
    }
}

/// Decodes every element of `items`, all or nothing: the first element that
/// fails makes the whole sequence fail.
pub fn decode_all<T: Decode>(items: &Vec<Json>) -> (r: Result<Vec<T>, DecodeError>)
    ensures
        match r {
            Ok(v) => first_failure::<T>(items@) is None && decodes_all(items@, v@),
            Err(e) => first_failure::<T>(items@) == Some(e@),
        },
{
    let mut out: Vec<T> = Vec::new();
    let mut i: usize = 0;
    assert(items@.skip(0) == items@);
    while i < items.len()
        invariant
            i <= items@.len(),
            out@.len() == i,
            forall|k: int| 0 <= k < i ==> T::decodes_to(#[trigger] items@[k], out@[k]),
            first_failure::<T>(items@) == first_failure::<T>(items@.skip(i as int)),
        decreases items.len() - i,
    {
        let ghost rest = items@.skip(i as int);
        assert(rest[0] == items@[i as int]);
        assert(rest.drop_first() == items@.skip(i + 1));
        let v = T::from_json(&items[i])?;
        out.push(v);
        i = i + 1;
    }
    Ok(out)
}

} // verus!
