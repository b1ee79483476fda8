//! Bringing a cipher's collections in line with a request: the collections
//! named on only one side are the ones to change, each must exist and be
//! writable by the user, and the changes stop at the first refusal.
use vstd::prelude::*;
use crate::error::ApiError;
use crate::access::{access_check, check_cipher_access};
use crate::model::{CipherAccess, CollectionInfo, find_collection, lookup_collection};

verus! {

/// The ids in `s` that are not in `other`, each once, in order of first
/// appearance in `s`.
pub open spec fn only_in(s: Seq<Seq<char>>, other: Seq<Seq<char>>) -> Seq<Seq<char>>
    decreases s.len(),
{
    if s.len() == 0 {
        Seq::empty()
    } else {
        let r = only_in(s.drop_last(), other);
        let x = s.last();
        if other.contains(x) || r.contains(x) {
            r
        } else {
            r.push(x)
        }
    }
}

/// The ids named in exactly one of `a` and `b`, each once: those only in
/// `a` first, then those only in `b`.
pub open spec fn symmetric_difference(a: Seq<Seq<char>>, b: Seq<Seq<char>>) -> Seq<Seq<char>> {
    only_in(a, b) + only_in(b, a)
}

/// One change to the collections a cipher is in: `add` puts it in the
/// collection, otherwise it is taken out.
pub struct CollectionChange {
    pub collection: String,
    pub add: bool,
}

/// The changes, by the collections' ids.
pub open spec fn changes_view(v: Seq<CollectionChange>) -> Seq<(Seq<char>, bool)> {
    Seq::new(v.len(), |i: int| (v[i].collection@, v[i].add))
}

/// Going through `order`, the changes made and the refusal that stopped them:
/// a collection that does not exist, or that the user may not change, stops
/// the run; any other is added when `posted` names it, else removed.
pub open spec fn change_steps(
    order: Seq<Seq<char>>,
    posted: Seq<Seq<char>>,
    infos: Seq<CollectionInfo>,
) -> (Seq<(Seq<char>, bool)>, Option<ApiError>)
    decreases order.len(),
{
    if order.len() == 0 {
        (Seq::empty(), None)
    } else {
        let (acts, err) = change_steps(order.drop_last(), posted, infos);
        if err is Some {
            (acts, err)
        } else {
            let x = order.last();
            match lookup_collection(infos, x) {
                None => (acts, Some(ApiError::InvalidCollection)),
                Some(w) => if w {
                    (acts.push((x, posted.contains(x))), None)
                } else {
                    (acts, Some(ApiError::NoCollectionRights))
                },
            }
        }
    }
}

/// The collections a cipher is in after the changes `acts`, starting from `s`.
pub open spec fn apply_changes(s: Set<Seq<char>>, acts: Seq<(Seq<char>, bool)>) -> Set<Seq<char>>
    decreases acts.len(),
{
    if acts.len() == 0 {
        s
    } else {
        let before = apply_changes(s, acts.drop_last());
        let (x, add) = acts.last();
        if add {
            before.insert(x)
        } else {
            before.remove(x)
        }
    }
}

pub proof fn lemma_only_in_members(s: Seq<Seq<char>>, other: Seq<Seq<char>>)
    ensures
        forall|x: Seq<char>| #[trigger] only_in(s, other).contains(x) <==> (s.contains(x) && !other.contains(x)),
        only_in(s, other).no_duplicates(),
    decreases s.len(),
{
    if s.len() > 0 {
        let r = only_in(s.drop_last(), other);
        lemma_only_in_members(s.drop_last(), other);
        assert forall|x: Seq<char>| s.contains(x) <==> (s.drop_last().contains(x) || x == s.last()) by {
            if s.contains(x) {
                let k = choose|k: int| 0 <= k < s.len() && s[k] == x;
                if k < s.len() - 1 {
                    assert(s.drop_last()[k] == x);
                }
            }
            if s.drop_last().contains(x) {
                let k = choose|k: int| 0 <= k < s.drop_last().len() && s.drop_last()[k] == x;
                assert(s[k] == x);
            }
            if x == s.last() {
                assert(s[s.len() - 1] == x);
            }
        }
        let x = s.last();
        if !(other.contains(x) || r.contains(x)) {
            assert forall|y: Seq<char>| r.push(x).contains(y) <==> (r.contains(y) || y == x) by {
                if r.push(x).contains(y) {
                    let k = choose|k: int| 0 <= k < r.push(x).len() && r.push(x)[k] == y;
                    if k < r.len() {
                        assert(r[k] == y);
                    }
                }
                if r.contains(y) {
                    let k = choose|k: int| 0 <= k < r.len() && r[k] == y;
                    assert(r.push(x)[k] == y);
                }
                if y == x {
                    assert(r.push(x)[r.len() as int] == y);
                }
            }
            assert forall|i: int, j: int| 0 <= i < r.push(x).len() && 0 <= j < r.push(x).len() && i != j
                implies r.push(x)[i] != r.push(x)[j] by {
                if i == r.len() {
                    assert(r.contains(r[j]));
                } else if j == r.len() {
                    assert(r.contains(r[i]));
                }
            }
            assert forall|y: Seq<char>| #[trigger] only_in(s, other).contains(y) <==> (s.contains(y) && !other.contains(y)) by {
                assert(r.push(x).contains(y) <==> (r.contains(y) || y == x));
                assert(r.contains(y) <==> (s.drop_last().contains(y) && !other.contains(y)));
            }
        } else {
            assert forall|y: Seq<char>| #[trigger] only_in(s, other).contains(y) <==> (s.contains(y) && !other.contains(y)) by {
                assert(only_in(s, other) == r);
                assert(r.contains(y) <==> (s.drop_last().contains(y) && !other.contains(y)));
                assert(r.contains(x) <==> (s.drop_last().contains(x) && !other.contains(x)));
            }
        }
    }
}

/// The symmetric difference holds each id once, and holds exactly the ids
/// named on one side only.
pub proof fn lemma_symmetric_difference_members(a: Seq<Seq<char>>, b: Seq<Seq<char>>)
    ensures
        forall|x: Seq<char>| #[trigger] symmetric_difference(a, b).contains(x) <==> (a.contains(x) != b.contains(x)),
        symmetric_difference(a, b).no_duplicates(),
{
    lemma_only_in_members(a, b);
    lemma_only_in_members(b, a);
    let l = only_in(a, b);
    let r = only_in(b, a);
    let d = l + r;
    assert forall|x: Seq<char>| d.contains(x) <==> (l.contains(x) || r.contains(x)) by {
        if d.contains(x) {
            let k = choose|k: int| 0 <= k < d.len() && d[k] == x;
            if k < l.len() {
                assert(l[k] == x);
            } else {
                assert(r[k - l.len()] == x);
            }
        }
        if l.contains(x) {
            let k = choose|k: int| 0 <= k < l.len() && l[k] == x;
            assert(d[k] == x);
        }
        if r.contains(x) {
            let k = choose|k: int| 0 <= k < r.len() && r[k] == x;
            assert(d[k + l.len()] == x);
        }
    }
    assert forall|i: int, j: int| 0 <= i < d.len() && 0 <= j < d.len() && i != j implies d[i] != d[j] by {
        if i < l.len() && j >= l.len() {
            assert(l.contains(d[i]));
            assert(r.contains(d[j]));
        } else if j < l.len() && i >= l.len() {
            assert(l.contains(d[j]));
            assert(r.contains(d[i]));
        } else if i < l.len() {
            assert(d[i] == l[i] && d[j] == l[j]);
        } else {
            assert(d[i] == r[i - l.len()] && d[j] == r[j - l.len()]);
        }
    }
}

/// Once a run of changes is refused it stays refused: the whole run is the
/// run up to the refusal.
pub proof fn lemma_change_steps_stop(order: Seq<Seq<char>>, posted: Seq<Seq<char>>, infos: Seq<CollectionInfo>, k: int)
    requires
        0 <= k <= order.len(),
        change_steps(order.take(k), posted, infos).1 is Some,
    ensures
        change_steps(order, posted, infos) == change_steps(order.take(k), posted, infos),
    decreases order.len(),
{
    if k == order.len() {
        assert(order.take(k) =~= order);
    } else {
        assert(order.drop_last().take(k) =~= order.take(k));
        lemma_change_steps_stop(order.drop_last(), posted, infos, k);
    }
}

/// Every change made, whether or not the run was refused later, is on an
/// existing collection the user may change, and adds exactly when the
/// request names the collection.
pub proof fn lemma_changes_are_authorized(order: Seq<Seq<char>>, posted: Seq<Seq<char>>, infos: Seq<CollectionInfo>)
    ensures
        forall|i: int| 0 <= i < change_steps(order, posted, infos).0.len() ==> {
            let (x, add) = #[trigger] change_steps(order, posted, infos).0[i];
            &&& lookup_collection(infos, x) == Some(true)
            &&& add == posted.contains(x)
            &&& order.contains(x)
        },
    decreases order.len(),
{
    if order.len() > 0 {
        lemma_changes_are_authorized(order.drop_last(), posted, infos);
        let acts = change_steps(order.drop_last(), posted, infos).0;
        assert forall|i: int| 0 <= i < acts.len() implies order.contains(#[trigger] acts[i].0) by {
            let k = choose|k: int| 0 <= k < order.drop_last().len() && order.drop_last()[k] == acts[i].0;
            assert(order[k] == acts[i].0);
        }
        assert(order[order.len() - 1] == order.last());
    }
}

/// A run that is not refused changes each id of `order` in turn.
pub proof fn lemma_change_steps_complete(order: Seq<Seq<char>>, posted: Seq<Seq<char>>, infos: Seq<CollectionInfo>)
    requires
        change_steps(order, posted, infos).1 is None,
    ensures
        change_steps(order, posted, infos).0.len() == order.len(),
        forall|i: int| 0 <= i < order.len() ==>
            #[trigger] change_steps(order, posted, infos).0[i] == (order[i], posted.contains(order[i])),
    decreases order.len(),
{
    if order.len() > 0 {
        lemma_change_steps_complete(order.drop_last(), posted, infos);
    }
}

/// Each id of `order` in turn, added when `posted` names it, else removed.
pub open spec fn changes_for(order: Seq<Seq<char>>, posted: Seq<Seq<char>>) -> Seq<(Seq<char>, bool)> {
    Seq::new(order.len(), |i: int| (order[i], posted.contains(order[i])))
}

/// After changes that touch each id of `order` in turn, an id of `order`
/// is in the result exactly when its last change adds it; the others keep
/// their membership.
proof fn lemma_apply_changes(s: Set<Seq<char>>, order: Seq<Seq<char>>, posted: Seq<Seq<char>>)
    ensures
        forall|y: Seq<char>| #[trigger] apply_changes(s, changes_for(order, posted)).contains(y)
            <==> if order.contains(y) { posted.contains(y) } else { s.contains(y) },
    decreases order.len(),
{
    let acts = changes_for(order, posted);
    if order.len() > 0 {
        let prev = order.drop_last();
        lemma_apply_changes(s, prev, posted);
        assert(acts.drop_last() =~= changes_for(prev, posted));
        assert forall|y: Seq<char>| y != order.last() implies (order.contains(y) <==> prev.contains(y)) by {
            if order.contains(y) {
                let k = choose|k: int| 0 <= k < order.len() && order[k] == y;
                assert(prev[k] == y);
            }
            if prev.contains(y) {
                let k = choose|k: int| 0 <= k < prev.len() && prev[k] == y;
                assert(order[k] == y);
            }
        }
        assert(order.contains(order.last())) by {
            assert(order[order.len() - 1] == order.last());
        }
        assert forall|y: Seq<char>| #[trigger] apply_changes(s, changes_for(order, posted)).contains(y)
            <==> if order.contains(y) { posted.contains(y) } else { s.contains(y) } by {
            let before = apply_changes(s, changes_for(prev, posted));
            assert(apply_changes(s, acts.drop_last()) == before);
            assert(acts.last() == (order.last(), posted.contains(order.last())));
            assert(before.contains(y) <==> if prev.contains(y) { posted.contains(y) } else { s.contains(y) });
        }
    }
}

/// A collections update that is not refused leaves the cipher in exactly
/// the collections the request names.
pub proof fn lemma_collections_update_reaches_posted(
    posted: Seq<Seq<char>>,
    current: Seq<Seq<char>>,
    infos: Seq<CollectionInfo>,
)
    requires
        change_steps(symmetric_difference(posted, current), posted, infos).1 is None,
    ensures
        apply_changes(current.to_set(), change_steps(symmetric_difference(posted, current), posted, infos).0)
            == posted.to_set(),
{
    let d = symmetric_difference(posted, current);
    lemma_symmetric_difference_members(posted, current);
    lemma_change_steps_complete(d, posted, infos);
    let acts = change_steps(d, posted, infos).0;
    assert(acts =~= changes_for(d, posted));
    lemma_apply_changes(current.to_set(), d, posted);
    assert(apply_changes(current.to_set(), acts) =~= posted.to_set());
}

/// Posting the collections a cipher is already in changes nothing and is
/// not refused.
pub proof fn lemma_collections_update_idempotent(
    posted: Seq<Seq<char>>,
    current: Seq<Seq<char>>,
    infos: Seq<CollectionInfo>,
)
    requires
        posted.to_set() == current.to_set(),
    ensures
        change_steps(symmetric_difference(posted, current), posted, infos) == (Seq::<(Seq<char>, bool)>::empty(), Option::<ApiError>::None),
{
    let d = symmetric_difference(posted, current);
    lemma_symmetric_difference_members(posted, current);
    if d.len() > 0 {
        assert(d.contains(d[0]));
        assert(posted.to_set().contains(d[0]) == current.to_set().contains(d[0]));
        assert(posted.to_set().contains(d[0]) == posted.contains(d[0]));
        assert(current.to_set().contains(d[0]) == current.contains(d[0]));
    }
    assert(d =~= Seq::<Seq<char>>::empty());
}

/// A run over ids that all name existing collections the user may change is
/// never refused, and changes every id in turn.
pub proof fn lemma_change_steps_not_refused(order: Seq<Seq<char>>, posted: Seq<Seq<char>>, infos: Seq<CollectionInfo>)
    requires
        forall|i: int| 0 <= i < order.len() ==> lookup_collection(infos, #[trigger] order[i]) == Some(true),
    ensures
        change_steps(order, posted, infos).1 is None,
        change_steps(order, posted, infos).0.len() == order.len(),
    decreases order.len(),
{
    if order.len() > 0 {
        let prev = order.drop_last();
        assert forall|i: int| 0 <= i < prev.len() implies lookup_collection(infos, #[trigger] prev[i]) == Some(true) by {
            assert(prev[i] == order[i]);
        }
        lemma_change_steps_not_refused(prev, posted, infos);
        assert(order.last() == order[order.len() - 1]);
    }
}

/// A refused run stopped at the first id that did not pass: every id before
/// it was changed, and that id names no collection (`InvalidCollection`) or
/// one the user may not change (`NoCollectionRights`).
pub proof fn lemma_change_steps_refusal(order: Seq<Seq<char>>, posted: Seq<Seq<char>>, infos: Seq<CollectionInfo>)
    ensures
        change_steps(order, posted, infos).1 matches Some(e) ==> {
            let j = change_steps(order, posted, infos).0.len() as int;
            &&& j < order.len()
            &&& forall|k: int| 0 <= k < j ==> lookup_collection(infos, #[trigger] order[k]) == Some(true)
            &&& lookup_collection(infos, order[j]) is None ==> e == ApiError::InvalidCollection
            &&& lookup_collection(infos, order[j]) == Some(false) ==> e == ApiError::NoCollectionRights
            &&& lookup_collection(infos, order[j]) != Some(true)
        },
    decreases order.len(),
{
    if order.len() > 0 {
        let prev = order.drop_last();
        lemma_change_steps_refusal(prev, posted, infos);
        let (acts, err) = change_steps(prev, posted, infos);
        if err is Some {
            let j = acts.len() as int;
            assert(order[j] == prev[j]);
            assert forall|k: int| 0 <= k < j implies lookup_collection(infos, #[trigger] order[k]) == Some(true) by {
                assert(order[k] == prev[k]);
            }
        } else {
            lemma_change_steps_complete(prev, posted, infos);
            lemma_changes_are_authorized(prev, posted, infos);
            assert forall|k: int| 0 <= k < prev.len() implies lookup_collection(infos, #[trigger] order[k]) == Some(true) by {
                assert(order[k] == prev[k]);
                assert(acts[k] == (prev[k], posted.contains(prev[k])));
            }
            assert(order[prev.len() as int] == order.last());
        }
    }
}

/// A collections update whose one-sided ids all name collections the user
/// may change is never refused; it removes exactly the collections the
/// request no longer names and adds exactly the new ones.
pub proof fn lemma_collections_update_not_refused(
    posted: Seq<Seq<char>>,
    current: Seq<Seq<char>>,
    infos: Seq<CollectionInfo>,
)
    requires
        forall|x: Seq<char>| posted.contains(x) != current.contains(x) ==> #[trigger] lookup_collection(infos, x) == Some(true),
    ensures
        change_steps(symmetric_difference(posted, current), posted, infos).1 is None,
        forall|x: Seq<char>, add: bool| change_steps(symmetric_difference(posted, current), posted, infos).0.contains((x, add))
            ==> add == posted.contains(x) && add != current.contains(x),
        forall|x: Seq<char>| posted.contains(x) != current.contains(x)
            ==> #[trigger] change_steps(symmetric_difference(posted, current), posted, infos).0.contains((x, posted.contains(x))),
{
    let d = symmetric_difference(posted, current);
    lemma_symmetric_difference_members(posted, current);
    assert forall|i: int| 0 <= i < d.len() implies lookup_collection(infos, #[trigger] d[i]) == Some(true) by {
        assert(d.contains(d[i]));
    }
    lemma_change_steps_not_refused(d, posted, infos);
    lemma_change_steps_complete(d, posted, infos);
    let acts = change_steps(d, posted, infos).0;
    assert forall|x: Seq<char>, add: bool| acts.contains((x, add)) implies add == posted.contains(x) && add != current.contains(x) by {
        let k = choose|k: int| 0 <= k < acts.len() && acts[k] == (x, add);
        assert(acts[k] == (d[k], posted.contains(d[k])));
        assert(d.contains(d[k]));
    }
    assert forall|x: Seq<char>| posted.contains(x) != current.contains(x) implies #[trigger] acts.contains((x, posted.contains(x))) by {
        assert(d.contains(x));
        let k = choose|k: int| 0 <= k < d.len() && d[k] == x;
        assert(acts[k] == (d[k], posted.contains(d[k])));
    }
}

/// Whether `v` holds `x`.
pub fn contains_str(v: &Vec<String>, x: &String) -> (b: bool)
    ensures
        b == v.deep_view().contains(x@),
{
    let mut i: usize = 0;
    while i < v.len()
        invariant
            i <= v.len(),
            forall|k: int| 0 <= k < i ==> v.deep_view()[k] != x@,
        decreases v.len() - i,
    {
        if v[i] == *x {
            assert(v.deep_view()[i as int] == x@);
            return true;
        }
        i = i + 1;
    }
    false
}

/// The ids of `s` that `other` does not hold, each once, in order.
pub fn only_in_exec(s: &Vec<String>, other: &Vec<String>) -> (r: Vec<String>)
    ensures
        r.deep_view() == only_in(s.deep_view(), other.deep_view()),
{
    let mut r: Vec<String> = Vec::new();
    let mut i: usize = 0;
    while i < s.len()
        invariant
            i <= s.len(),
            r.deep_view() == only_in(s.deep_view().take(i as int), other.deep_view()),
        decreases s.len() - i,
    {
        let ghost prefix = s.deep_view().take(i as int + 1);
        assert(prefix.drop_last() =~= s.deep_view().take(i as int));
        assert(prefix.last() == s[i as int]@);
        if !contains_str(other, &s[i]) && !contains_str(&r, &s[i]) {
            let ghost before = r.deep_view();
            r.push(s[i].clone());
            assert(r.deep_view() =~= before.push(s[i as int]@));
        }
        i = i + 1;
    }
    assert(s.deep_view().take(s.len() as int) =~= s.deep_view());
    r
}

/// The ids named in exactly one of `a` and `b`, each once: those only in
/// `a` in their order, then those only in `b` in theirs.
pub fn symmetric_difference_exec(a: &Vec<String>, b: &Vec<String>) -> (r: Vec<String>)
    ensures
        r.deep_view() == symmetric_difference(a.deep_view(), b.deep_view()),
{
    let mut left = only_in_exec(a, b);
    let mut right = only_in_exec(b, a);
    let ghost l = left.deep_view();
    let ghost rr = right.deep_view();
    left.append(&mut right);
    assert(left.deep_view() =~= l + rr);
    left
}

/// Goes through `order`: stops at a collection that does not exist or that
/// the user may not change, else adds the cipher to it when `posted` names
/// it and takes it out otherwise. Returns the changes and the refusal.
pub fn plan_collection_changes(
    order: &Vec<String>,
    posted: &Vec<String>,
    infos: &Vec<CollectionInfo>,
) -> (r: (Vec<CollectionChange>, Option<ApiError>))
    ensures
        (changes_view(r.0@), r.1) == change_steps(order.deep_view(), posted.deep_view(), infos@),
{
    let mut changes: Vec<CollectionChange> = Vec::new();
    let mut i: usize = 0;
    while i < order.len()
        invariant
            i <= order.len(),
            change_steps(order.deep_view().take(i as int), posted.deep_view(), infos@)
                == (changes_view(changes@), Option::<ApiError>::None),
        decreases order.len() - i,
    {
        let ghost prefix = order.deep_view().take(i as int + 1);
        assert(prefix.drop_last() =~= order.deep_view().take(i as int));
        assert(prefix.last() == order[i as int]@);
        match find_collection(infos, &order[i]) {
            None => {
                proof {
                    lemma_change_steps_stop(order.deep_view(), posted.deep_view(), infos@, i as int + 1);
                }
                return (changes, Some(ApiError::InvalidCollection));
            },
            Some(w) => {
                if !w {
                    proof {
                        lemma_change_steps_stop(order.deep_view(), posted.deep_view(), infos@, i as int + 1);
                    }
                    return (changes, Some(ApiError::NoCollectionRights));
                }
                let add = contains_str(posted, &order[i]);
                let ghost before = changes@;
                changes.push(CollectionChange { collection: order[i].clone(), add });
                assert(changes_view(changes@) =~= changes_view(before).push((order[i as int]@, add)));
            },
        }
        i = i + 1;
    }
    assert(order.deep_view().take(order.len() as int) =~= order.deep_view());
    (changes, None)
}

/// The changes to make to a cipher's collections, in order, and the refusal
/// the request is answered with once they are made (`None`: success).
pub struct CollectionsPlan {
    pub changes: Vec<CollectionChange>,
    pub refusal: Option<ApiError>,
}

/// Setting the collections of the cipher that was looked up to `posted`,
/// given the collections the user currently sees it in and the collections
/// that exist. The cipher must exist and be writable; then each collection
/// named on one side only is changed, until one that does not exist or that
/// the user may not change.
pub fn post_collections_admin(
    lookup: Option<CipherAccess>,
    posted: &Vec<String>,
    current: &Vec<String>,
    infos: &Vec<CollectionInfo>,
) -> (r: Result<CollectionsPlan, ApiError>)
    ensures
        match access_check(lookup, true, ApiError::CipherNotWritable) {
            Err(e) => r == Err::<CollectionsPlan, ApiError>(e),
            Ok(_) => r matches Ok(p) && (changes_view(p.changes@), p.refusal) == change_steps(
                symmetric_difference(posted.deep_view(), current.deep_view()),
                posted.deep_view(),
                infos@,
            ),
        },
{
    match check_cipher_access(lookup, true, ApiError::CipherNotWritable) {
        Err(e) => return Err(e),
        Ok(()) => {},
    }
    let order = symmetric_difference_exec(posted, current);
    let (changes, refusal) = plan_collection_changes(&order, posted, infos);
    Ok(CollectionsPlan { changes, refusal })
}

} // verus!
