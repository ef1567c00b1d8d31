//! Several variables running along one principal variable, each joined to
//! the principal one by a pair of splines, so that any variable can be
//! interpolated from any other through the principal one.

use std::collections::HashMap;
use std::hash::Hash;
use vstd::prelude::*;
use vstd::std_specs::hash::obeys_key_model;
use crate::binsearch::{index_option, search_result};
use crate::ieee::spec_is_finite;
use crate::spline::Spline;

verus! {

broadcast use vstd::std_specs::hash::group_hash_axioms;

/// Interpolation between variables of a `MultiSpline<K>`. The principal
/// variable is registered under its key with `None`; every other variable
/// with `Some(i)`, where `pps[i].0` maps that variable to the principal one
/// and `pps[i].1` maps the principal variable to it. `tt` holds the break
/// values of the principal variable.
#[derive(Debug)]
pub struct MultiSpline<K> {
    pub keys: HashMap<K, Option<usize>>,
    pub pps: Vec<(Spline, Spline)>,
    pub tt: Vec<u64>,
}

/// How a value of one variable is carried to another.
#[derive(Debug, Clone, Copy, PartialEq, Eq, Structural)]
pub enum Route {
    /// Both keys name the principal variable: the value is its own answer.
    Identity,
    /// From variable `i` to the principal one, through `pps[i].0`.
    ToPrincipal(usize),
    /// From the principal variable to variable `i`, through `pps[i].1`.
    FromPrincipal(usize),
    /// From variable `i` to the principal one through `pps[i].0`, then on
    /// to variable `j` through `pps[j].1`.
    Through(usize, usize),
}

/// The route between the variables registered under `kx` and `ky`, `None`
/// when either key is not registered.
pub open spec fn spec_route<K>(keys: Map<K, Option<usize>>, kx: K, ky: K) -> Option<Route> {
    if !keys.contains_key(kx) || !keys.contains_key(ky) {
        None
    } else {
        match (keys[kx], keys[ky]) {
            (Some(i), None) => Some(Route::ToPrincipal(i)),
            (None, Some(j)) => Some(Route::FromPrincipal(j)),
            (Some(i), Some(j)) => Some(Route::Through(i, j)),
            (None, None) => Some(Route::Identity),
        }
    }
}

/// The break value at `index` of the variable registered under `key`:
/// `None` for an unknown key or an index past the principal breaks.
pub open spec fn break_by_key<K>(
    keys: Map<K, Option<usize>>,
    pps: Seq<(Spline, Spline)>,
    tt: Seq<u64>,
    key: K,
    index: int,
) -> Option<u64> {
    if !keys.contains_key(key) || index < 0 || index >= tt.len() {
        None
    } else {
        match keys[key] {
            Some(i) => Some(pps[i as int].0.breaks_x@[index]),
            None => Some(tt[index]),
        }
    }
}

/// Every key registered with `Some(i)` names an existing spline pair.
pub open spec fn keys_in_range<K>(keys: Map<K, Option<usize>>, n: int) -> bool {
    forall|k: K| #[trigger] keys.contains_key(k) ==> (keys[k] matches Some(i) ==> i < n)
}

impl<K> MultiSpline<K> {
    /// A spline pair fits when both splines are well formed and both span
    /// as many breaks as the principal variable.
    pub open spec fn fits(&self, pp: (Spline, Spline)) -> bool {
        &&& pp.0.wf()
        &&& pp.1.wf()
        &&& pp.0.breaks_x@.len() == self.tt@.len()
        &&& pp.1.breaks_x@.len() == self.tt@.len()
    }

    /// Registered indices name existing pairs, and every pair fits.
    pub open spec fn wf(&self) -> bool {
        &&& keys_in_range(self.keys@, self.pps@.len() as int)
        &&& forall|i: int| 0 <= i < self.pps@.len() ==> self.fits(#[trigger] self.pps@[i])
    }
}

impl<K: Eq + Hash> MultiSpline<K> {
    /// Starts the structure with `key` as the principal variable and `tt`
    /// as its break values.
    pub fn new(key: K, tt: &[u64]) -> (s: Self)
        ensures
            s.tt@ == tt@,
            s.pps@.len() == 0,
            obeys_key_model::<K>() ==> s.keys@ == Map::<K, Option<usize>>::empty().insert(key, None),
            obeys_key_model::<K>() ==> s.wf(),
    {
        let mut keys: HashMap<K, Option<usize>> = HashMap::new();
        keys.insert(key, None);
        let pps: Vec<(Spline, Spline)> = Vec::new();
        MultiSpline { keys: keys, pps: pps, tt: vstd::slice::slice_to_vec(tt) }
    }

    /// `true` when a variable, the principal one included, is registered
    /// under `key`.
    pub fn is_registered(&self, key: &K) -> (r: bool)
        ensures
            obeys_key_model::<K>() ==> r == self.keys@.contains_key(*key),
    {
        self.keys.contains_key(key)
    }

    /// Registers a new variable under `key`, given the spline `pp0` from it
    /// to the principal variable and the spline `pp1` back. Returns `false`,
    /// changing nothing, when `key` is registered already, the principal
    /// key included.
    pub fn add_variable(&mut self, key: K, pp0: Spline, pp1: Spline) -> (res: bool)
        ensures
            final(self).tt@ == old(self).tt@,
            res ==> final(self).pps@ == old(self).pps@.push((pp0, pp1)),
            !res ==> final(self).pps@ == old(self).pps@ && final(self).keys@ == old(self).keys@,
            obeys_key_model::<K>() ==> res == !old(self).keys@.contains_key(key),
            obeys_key_model::<K>() && res ==> final(self).keys@ == old(self).keys@.insert(
                key,
                Some(old(self).pps@.len() as usize),
            ),
            obeys_key_model::<K>() && old(self).wf() && old(self).fits((pp0, pp1))
                ==> final(self).wf(),
    {
        match self.keys.get(&key) {
            Some(Some(_)) => {
                return false;
            },
            Some(None) => {
                return false;
            },
            None => {},
        }
        let idx = self.pps.len();
        self.pps.push((pp0, pp1));
        self.keys.insert(key, Some(idx));
        proof {
            if obeys_key_model::<K>() && old(self).wf() && old(self).fits((pp0, pp1)) {
                assert forall|i: int| 0 <= i < self.pps@.len() implies self.fits(
                    #[trigger] self.pps@[i],
                ) by {
                    if i < old(self).pps@.len() {
                        assert(old(self).fits(old(self).pps@[i]));
                    }
                }
                assert forall|k: K| #[trigger] self.keys@.contains_key(k) implies (
                self.keys@[k] matches Some(i) ==> i < self.pps@.len()) by {
                    if k != key {
                        assert(old(self).keys@.contains_key(k));
                    }
                }
            }
        }
        true
    }

    /// The route that interpolation from the variable `keyx` to the
    /// variable `keyy` takes; `None` when either key is not registered.
    pub fn route(&self, keyx: &K, keyy: &K) -> (r: Option<Route>)
        ensures
            obeys_key_model::<K>() ==> r == spec_route(self.keys@, *keyx, *keyy),
    {
        match (self.keys.get(keyx), self.keys.get(keyy)) {
            (None, _) | (_, None) => None,
            (Some(Some(idx)), Some(None)) => Some(Route::ToPrincipal(*idx)),
            (Some(None), Some(Some(idx))) => Some(Route::FromPrincipal(*idx)),
            (Some(Some(idx0)), Some(Some(idx1))) => Some(Route::Through(*idx0, *idx1)),
            (Some(None), Some(None)) => Some(Route::Identity),
        }
    }

    /// The break value at `index` of the variable registered under `key`;
    /// `None` for an unknown key or an index past the principal breaks, and
    /// also for a key registered with an index that names no stored pair or
    /// a pair whose breaks fall short of the principal ones, a state that
    /// `wf` rules out (`add_variable` keeps `wf` when it is given a pair
    /// that `fits`).
    pub fn get_break_for_index_by_key(&self, key: &K, index: usize) -> (r: Option<u64>)
        ensures
            obeys_key_model::<K>() && self.wf() ==> r == break_by_key(
                self.keys@,
                self.pps@,
                self.tt@,
                *key,
                index as int,
            ),
    {
        match self.keys.get(key) {
            Some(Some(idx)) => {
                if index >= self.tt.len() {
                    return None;
                }
                if *idx >= self.pps.len() || index >= self.pps[*idx].0.breaks_x.len() {
                    return None;
                }
                Some(self.pps[*idx].0.breaks_x[index])
            },
            Some(None) => {
                if index >= self.tt.len() {
                    return None;
                }
                Some(self.tt[index])
            },
            None => None,
        }
    }
}

impl<K> MultiSpline<K> {
    /// The break value at `index` of the variable stored at `idx`. Returns
    /// `None` only when both `index` and `idx` are out of range.
    pub fn get_break_for_index_by_idx(&self, idx: usize, index: usize) -> (r: Option<u64>)
        requires
            index < self.tt@.len() || idx < self.pps@.len() ==> idx < self.pps@.len() && index
                < self.pps@[idx as int].0.breaks_x@.len(),
        ensures
            r == if index >= self.tt@.len() && idx >= self.pps@.len() {
                None
            } else {
                Some(self.pps@[idx as int].0.breaks_x@[index as int])
            },
    {
        if index >= self.tt.len() && idx >= self.pps.len() {
            return None;
        }
        Some(self.pps[idx].0.breaks_x[index])
    }

    /// The number of variables besides the principal one.
    pub fn number_variables(&self) -> (r: usize)
        ensures
            r == self.pps@.len(),
    {
        self.pps.len()
    }

    /// The number of break values of the principal variable.
    pub fn len(&self) -> (r: usize)
        ensures
            r == self.tt@.len(),
    {
        self.tt.len()
    }

    /// The interval of the variable stored at `idx` that holds `x`.
    pub fn index_by_idx(&self, idx: usize, x: &u64) -> (r: Option<usize>)
        requires
            idx < self.pps@.len(),
            self.pps@[idx as int].0.breaks_x@.len() >= 1 || !spec_is_finite(*x),
        ensures
            !spec_is_finite(*x) ==> r is None,
            index_option(r) == search_result(*x, self.pps@[idx as int].0.breaks_x@),
    {
        self.pps[idx].0.index(x)
    }
}

/// After a variable is registered under a new key, its break values read
/// back by that key are the breaks of the spline given for it.
pub proof fn lemma_breaks_after_add<K>(
    keys: Map<K, Option<usize>>,
    pps: Seq<(Spline, Spline)>,
    tt: Seq<u64>,
    key: K,
    pp0: Spline,
    pp1: Spline,
    index: int,
)
    requires
        !keys.contains_key(key),
        pps.len() <= usize::MAX,
        0 <= index < tt.len(),
        pp0.breaks_x@.len() == tt.len(),
    ensures
        break_by_key(keys.insert(key, Some(pps.len() as usize)), pps.push((pp0, pp1)), tt, key, index)
            == Some(pp0.breaks_x@[index]),
{
    assert(pps.push((pp0, pp1))[pps.len() as int] == (pp0, pp1));
}

/// Registering a variable leaves what every other key reads as it was.
pub proof fn lemma_add_keeps_other_breaks<K>(
    keys: Map<K, Option<usize>>,
    pps: Seq<(Spline, Spline)>,
    tt: Seq<u64>,
    key: K,
    pp0: Spline,
    pp1: Spline,
    other: K,
    index: int,
)
    requires
        keys_in_range(keys, pps.len() as int),
        pps.len() <= usize::MAX,
        other != key,
    ensures
        break_by_key(keys.insert(key, Some(pps.len() as usize)), pps.push((pp0, pp1)), tt, other, index)
            == break_by_key(keys, pps, tt, other, index),
{
    if keys.contains_key(other) {
        if let Some(i) = keys[other] {
            assert(i < pps.len());
            assert(pps.push((pp0, pp1))[i as int] == pps[i as int]);
        }
    }
}

/// After a variable is registered under a new key, interpolation between it
/// and the principal variable goes through its new pair of splines, in
/// both directions.
pub proof fn lemma_route_after_add<K>(keys: Map<K, Option<usize>>, key: K, n: usize, principal: K)
    requires
        !keys.contains_key(key),
        keys.contains_key(principal),
        keys[principal] is None,
    ensures
        spec_route(keys.insert(key, Some(n)), key, principal) == Some(Route::ToPrincipal(n)),
        spec_route(keys.insert(key, Some(n)), principal, key) == Some(Route::FromPrincipal(n)),
        spec_route(keys.insert(key, Some(n)), principal, principal) == Some(Route::Identity),
{
}

/// Both keys naming the principal variable give the identity; a key that
/// is not registered gives no route.
pub proof fn lemma_route_identity_and_unknown<K>(keys: Map<K, Option<usize>>, principal: K, other: K, unknown: K)
    requires
        keys.contains_key(principal),
        keys[principal] is None,
        !keys.contains_key(unknown),
    ensures
        spec_route(keys, principal, principal) == Some(Route::Identity),
        spec_route(keys, unknown, other) is None,
        spec_route(keys, other, unknown) is None,
{
}

/// The route between two registered keys: from a variable stored at `i`
/// to the principal one goes through pair `i`, the reverse through pair
/// `j`, and between two variables it goes first through the pair of the
/// key it starts from, then through the pair of the key it ends at.
pub proof fn lemma_route_by_registration<K>(keys: Map<K, Option<usize>>, kx: K, ky: K)
    requires
        keys.contains_key(kx),
        keys.contains_key(ky),
    ensures
        keys[kx] is None && keys[ky] is None ==> spec_route(keys, kx, ky) == Some(Route::Identity),
        (keys[kx], keys[ky]) matches (Some(i), None) ==> spec_route(keys, kx, ky) == Some(
            Route::ToPrincipal(i),
        ),
        (keys[kx], keys[ky]) matches (None, Some(j)) ==> spec_route(keys, kx, ky) == Some(
            Route::FromPrincipal(j),
        ),
        (keys[kx], keys[ky]) matches (Some(i), Some(j)) ==> spec_route(keys, kx, ky) == Some(
            Route::Through(i, j),
        ),
{
}

/// Break values by key: the principal key reads the principal breaks at
/// every index below their count, a variable stored at `i` reads the
/// breaks of its spline to the principal variable, and an index at or past
/// the count of principal breaks, or an unknown key, reads nothing.
pub proof fn lemma_break_by_key_values<K>(
    keys: Map<K, Option<usize>>,
    pps: Seq<(Spline, Spline)>,
    tt: Seq<u64>,
    key: K,
    index: int,
)
    ensures
        keys.contains_key(key) && keys[key] is None && 0 <= index < tt.len() ==> break_by_key(
            keys,
            pps,
            tt,
            key,
            index,
        ) == Some(tt[index]),
        keys.contains_key(key) && 0 <= index < tt.len() ==> (keys[key] matches Some(i)
            ==> break_by_key(keys, pps, tt, key, index) == Some(pps[i as int].0.breaks_x@[index])),
        (index < 0 || index >= tt.len() || !keys.contains_key(key)) ==> break_by_key(
            keys,
            pps,
            tt,
            key,
            index,
        ) is None,
{
}

} // verus!
