//! Length-prefixed lists are the one shape the class format repeats at every
//! level: read a count, then decode that many records back to back. This
//! module gives that shape one mathematical definition and the two lemmas the
//! decoders need to grow such a list one record at a time.
use vstd::prelude::*;

verus! {

/// Decodes exactly `k` records from `d` starting at `i`, where `one` decodes
/// a single record and says where the next one starts. `None` when any record
/// fails to decode.
pub open spec fn spec_parse_list<T>(
    d: Seq<u8>,
    i: int,
    k: nat,
    one: spec_fn(Seq<u8>, int) -> Option<(T, int)>,
) -> Option<(Seq<T>, int)>
    decreases k,
{
    if k == 0 {
        Some((Seq::empty(), i))
    } else {
        match one(d, i) {
            None => None,
            Some((e, j)) => match spec_parse_list(d, j, (k - 1) as nat, one) {
                None => None,
                Some((s, end)) => Some((Seq::empty().push(e) + s, end)),
            },
        }
    }
}

/// A list of `k` records followed by one more record is a list of `k + 1`
/// records.
pub proof fn lemma_parse_list_snoc<T>(
    d: Seq<u8>,
    i: int,
    k: nat,
    one: spec_fn(Seq<u8>, int) -> Option<(T, int)>,
)
    requires
        spec_parse_list(d, i, k, one) is Some,
        one(d, spec_parse_list(d, i, k, one)->Some_0.1) is Some,
    ensures
        spec_parse_list(d, i, (k + 1) as nat, one) matches Some(r) && {
            let (s, p) = spec_parse_list(d, i, k, one)->Some_0;
            let (e, j) = one(d, p)->Some_0;
            r.0 == s.push(e) && r.1 == j
        },
    decreases k,
{
    let (s, p) = spec_parse_list(d, i, k, one)->Some_0;
    let (e, j) = one(d, p)->Some_0;
    if k == 0 {
        assert(spec_parse_list(d, j, 0, one) == Some((Seq::<T>::empty(), j)));
        assert(spec_parse_list(d, i, 1, one) matches Some(r) && r.0 =~= s.push(e) && r.1 == j);
    } else {
        let (e0, j0) = one(d, i)->Some_0;
        lemma_parse_list_snoc(d, j0, (k - 1) as nat, one);
        let (s1, _) = spec_parse_list(d, j0, (k - 1) as nat, one)->Some_0;
        assert(spec_parse_list(d, i, (k + 1) as nat, one)->Some_0.0 == Seq::empty().push(e0) + (
        s1.push(e)));
        assert(Seq::empty().push(e0) + (s1.push(e)) =~= (Seq::empty().push(e0) + s1).push(e));
    }
}

/// A decoded list of `k` records holds exactly `k` records.
pub proof fn lemma_parse_list_len<T>(
    d: Seq<u8>,
    i: int,
    k: nat,
    one: spec_fn(Seq<u8>, int) -> Option<(T, int)>,
)
    requires
        spec_parse_list(d, i, k, one) is Some,
    ensures
        spec_parse_list(d, i, k, one)->Some_0.0.len() == k,
    decreases k,
{
    if k > 0 {
        let (e0, j0) = one(d, i)->Some_0;
        lemma_parse_list_len(d, j0, (k - 1) as nat, one);
    }
}

/// Once a record fails to decode, no longer list through that record decodes.
pub proof fn lemma_parse_list_fail<T>(
    d: Seq<u8>,
    i: int,
    k: nat,
    m: nat,
    one: spec_fn(Seq<u8>, int) -> Option<(T, int)>,
)
    requires
        m > k,
        spec_parse_list(d, i, k, one) is Some,
        one(d, spec_parse_list(d, i, k, one)->Some_0.1) is None,
    ensures
        spec_parse_list(d, i, m, one) is None,
    decreases k,
{
    if k == 0 {
    } else {
        let (e0, j0) = one(d, i)->Some_0;
        lemma_parse_list_fail(d, j0, (k - 1) as nat, (m - 1) as nat, one);
    }
}

} // verus!
