//! Repository file-change bookkeeping: the coalescing of change batches
//! (`merge_repository_updates`), which subscribers a repository watches
//! for, and the quiet-period debounce in front of a subscriber.
use std::collections::HashMap;
use vstd::prelude::*;
use vstd::std_specs::hash::spec_hash_map_iter;
use vstd::std_specs::iter::IteratorSpec;
use crate::paths::{file_name_of, join_path, parent_of, path_file_name, path_join, path_parent};

verus! {

broadcast use vstd::std_specs::hash::group_hash_axioms;

// ---------------------------------------------------------------------
// Sets and maps of paths held in vectors
// ---------------------------------------------------------------------

/// The set of paths that a vector holds.
pub open spec fn set_of(v: Seq<String>) -> Set<Seq<char>> {
    Set::new(|x: Seq<char>| exists|i: int| 0 <= i < v.len() && (#[trigger] v[i])@ == x)
}

/// No path occurs twice.
pub open spec fn distinct(v: Seq<String>) -> bool {
    forall|i: int, j: int| 0 <= i < v.len() && 0 <= j < v.len() && i != j ==> (#[trigger] v[i])@
        != (#[trigger] v[j])@
}

/// The map from destination to source that a vector of `(to, from)`
/// pairs holds.
pub open spec fn map_of(v: Seq<(String, String)>) -> Map<Seq<char>, Seq<char>> {
    Map::new(
        |k: Seq<char>| exists|i: int| 0 <= i < v.len() && (#[trigger] v[i]).0@ == k,
        |k: Seq<char>| v[choose|i: int| 0 <= i < v.len() && (#[trigger] v[i]).0@ == k].1@,
    )
}

/// No destination occurs twice.
pub open spec fn distinct_keys(v: Seq<(String, String)>) -> bool {
    forall|i: int, j: int| 0 <= i < v.len() && 0 <= j < v.len() && i != j ==> (#[trigger] v[i]).0@
        != (#[trigger] v[j]).0@
}

proof fn lemma_map_of_at(v: Seq<(String, String)>, i: int)
    requires
        distinct_keys(v),
        0 <= i < v.len(),
    ensures
        map_of(v).dom().contains(v[i].0@),
        map_of(v)[v[i].0@] == v[i].1@,
{
    assert(map_of(v).dom().contains(v[i].0@));
    let j = choose|j: int| 0 <= j < v.len() && (#[trigger] v[j]).0@ == v[i].0@;
    assert(j == i);
}

/// Whether `v` holds the path `x`.
fn set_contains(v: &Vec<String>, x: &String) -> (r: bool)
    ensures
        r == set_of(v@).contains(x@),
{
    let mut i: usize = 0;
    while i < v.len()
        invariant
            i <= v.len(),
            forall|j: int| 0 <= j < i ==> (#[trigger] v@[j])@ != x@,
        decreases v.len() - i,
    {
        if v[i] == *x {
            assert(set_of(v@).contains(x@)) by {
                assert(v@[i as int]@ == x@);
            }
            return true;
        }
        i += 1;
    }
    false
}

/// Removes the path `x`; says whether it was there.
fn set_remove(v: &mut Vec<String>, x: &String) -> (r: bool)
    requires
        distinct(old(v)@),
    ensures
        distinct(final(v)@),
        set_of(final(v)@) == set_of(old(v)@).remove(x@),
        r == set_of(old(v)@).contains(x@),
        !r ==> final(v)@ == old(v)@,
{
    let mut i: usize = 0;
    while i < v.len()
        invariant
            i <= v.len(),
            v@ == old(v)@,
            distinct(v@),
            forall|j: int| 0 <= j < i ==> (#[trigger] v@[j])@ != x@,
        decreases v.len() - i,
    {
        if v[i] == *x {
            let ghost before = v@;
            v.remove(i);
            proof {
                assert(set_of(before).contains(x@)) by {
                    assert(before[i as int]@ == x@);
                }
                assert forall|a: int, b: int|
                    0 <= a < v@.len() && 0 <= b < v@.len() && a != b implies (#[trigger] v@[a])@
                    != (#[trigger] v@[b])@ by {
                    let a0 = if a < i { a } else { a + 1 };
                    let b0 = if b < i { b } else { b + 1 };
                    assert(v@[a] == before[a0]);
                    assert(v@[b] == before[b0]);
                }
                assert(set_of(v@) =~= set_of(before).remove(x@)) by {
                    assert forall|y: Seq<char>| #[trigger] set_of(v@).contains(y) implies set_of(
                        before,
                    ).remove(x@).contains(y) by {
                        let k = choose|k: int| 0 <= k < v@.len() && (#[trigger] v@[k])@ == y;
                        let k0 = if k < i { k } else { k + 1 };
                        assert(v@[k] == before[k0]);
                        assert(k0 != i);
                    }
                    assert forall|y: Seq<char>| #[trigger] set_of(before).remove(x@).contains(
                        y,
                    ) implies set_of(v@).contains(y) by {
                        let k = choose|k: int| 0 <= k < before.len() && (#[trigger] before[k])@ == y;
                        assert(k != i);
                        if k < i {
                            assert(v@[k] == before[k]);
                        } else {
                            assert(v@[k - 1] == before[k]);
                        }
                    }
                }
            }
            return true;
        }
        i += 1;
    }
    proof {
        assert(!set_of(v@).contains(x@));
        assert(set_of(v@) =~= set_of(v@).remove(x@));
    }
    false
}

/// Adds the path `x` unless it is there.
fn set_insert(v: &mut Vec<String>, x: String)
    requires
        distinct(old(v)@),
    ensures
        distinct(final(v)@),
        set_of(final(v)@) == set_of(old(v)@).insert(x@),
{
    if set_contains(v, &x) {
        proof {
            assert(set_of(v@) =~= set_of(v@).insert(x@));
        }
        return;
    }
    let ghost before = v@;
    v.push(x);
    proof {
        assert forall|a: int, b: int|
            0 <= a < v@.len() && 0 <= b < v@.len() && a != b implies (#[trigger] v@[a])@ != (
            #[trigger] v@[b])@ by {
            if a < before.len() && b < before.len() {
                assert(v@[a] == before[a]);
                assert(v@[b] == before[b]);
            } else if a < before.len() {
                assert(v@[a] == before[a]);
                assert(!set_of(before).contains(x@));
                assert(before[a]@ != x@);
            } else {
                assert(v@[b] == before[b]);
                assert(before[b]@ != x@);
            }
        }
        assert(set_of(v@) =~= set_of(before).insert(x@)) by {
            assert forall|y: Seq<char>| #[trigger] set_of(v@).contains(y) implies set_of(
                before,
            ).insert(x@).contains(y) by {
                let k = choose|k: int| 0 <= k < v@.len() && (#[trigger] v@[k])@ == y;
                if k < before.len() {
                    assert(v@[k] == before[k]);
                }
            }
            assert forall|y: Seq<char>| #[trigger] set_of(before).insert(x@).contains(
                y,
            ) implies set_of(v@).contains(y) by {
                if y == x@ {
                    assert(v@[before.len() as int]@ == y);
                } else {
                    let k = choose|k: int| 0 <= k < before.len() && (#[trigger] before[k])@ == y;
                    assert(v@[k] == before[k]);
                }
            }
        }
    }
}

/// Removes the entry for destination `k`, handing back its source.
fn map_remove(v: &mut Vec<(String, String)>, k: &String) -> (r: Option<String>)
    requires
        distinct_keys(old(v)@),
    ensures
        distinct_keys(final(v)@),
        map_of(final(v)@) == map_of(old(v)@).remove(k@),
        match r {
            Some(s) => map_of(old(v)@).dom().contains(k@) && map_of(old(v)@)[k@] == s@,
            None => !map_of(old(v)@).dom().contains(k@) && final(v)@ == old(v)@,
        },
{
    let mut i: usize = 0;
    while i < v.len()
        invariant
            i <= v.len(),
            v@ == old(v)@,
            distinct_keys(v@),
            forall|j: int| 0 <= j < i ==> (#[trigger] v@[j]).0@ != k@,
        decreases v.len() - i,
    {
        if v[i].0 == *k {
            let ghost before = v@;
            proof {
                lemma_map_of_at(before, i as int);
            }
            let (_, from) = v.remove(i);
            proof {
                assert forall|a: int, b: int|
                    0 <= a < v@.len() && 0 <= b < v@.len() && a != b implies (#[trigger] v@[a]).0@
                    != (#[trigger] v@[b]).0@ by {
                    let a0 = if a < i { a } else { a + 1 };
                    let b0 = if b < i { b } else { b + 1 };
                    assert(v@[a] == before[a0]);
                    assert(v@[b] == before[b0]);
                }
                assert(map_of(v@) =~= map_of(before).remove(k@)) by {
                    assert forall|y: Seq<char>| #[trigger] map_of(v@).dom().contains(y) <==> map_of(
                        before,
                    ).remove(k@).dom().contains(y) by {
                        if map_of(v@).dom().contains(y) {
                            let j = choose|j: int| 0 <= j < v@.len() && (#[trigger] v@[j]).0@ == y;
                            let j0 = if j < i { j } else { j + 1 };
                            assert(v@[j] == before[j0]);
                        }
                        if map_of(before).remove(k@).dom().contains(y) {
                            let j = choose|j: int| 0 <= j < before.len() && (#[trigger] before[j]).0@
                                == y;
                            assert(j != i);
                            if j < i {
                                assert(v@[j] == before[j]);
                            } else {
                                assert(v@[j - 1] == before[j]);
                            }
                        }
                    }
                    assert forall|y: Seq<char>| #[trigger] map_of(v@).dom().contains(y) implies map_of(
                        v@,
                    )[y] == map_of(before).remove(k@)[y] by {
                        let j = choose|j: int| 0 <= j < v@.len() && (#[trigger] v@[j]).0@ == y;
                        let j0 = if j < i { j } else { j + 1 };
                        assert(v@[j] == before[j0]);
                        lemma_map_of_at(v@, j);
                        lemma_map_of_at(before, j0);
                    }
                }
            }
            return Some(from);
        }
        i += 1;
    }
    proof {
        assert(!map_of(v@).dom().contains(k@));
        assert(map_of(v@) =~= map_of(v@).remove(k@));
    }
    None
}

/// Records `k -> val`, replacing an entry for `k`.
fn map_insert(v: &mut Vec<(String, String)>, k: String, val: String)
    requires
        distinct_keys(old(v)@),
    ensures
        distinct_keys(final(v)@),
        map_of(final(v)@) == map_of(old(v)@).insert(k@, val@),
{
    let _ = map_remove(v, &k);
    let ghost before = v@;
    proof {
        assert(!map_of(before).dom().contains(k@));
    }
    v.push((k, val));
    proof {
        let n = before.len() as int;
        assert forall|a: int, b: int|
            0 <= a < v@.len() && 0 <= b < v@.len() && a != b implies (#[trigger] v@[a]).0@ != (
            #[trigger] v@[b]).0@ by {
            if a < n && b < n {
                assert(v@[a] == before[a]);
                assert(v@[b] == before[b]);
            } else if a < n {
                assert(v@[a] == before[a]);
                assert(!map_of(before).dom().contains(before[a].0@) || before[a].0@ != k@);
            } else {
                assert(v@[b] == before[b]);
                assert(before[b].0@ != k@);
            }
        }
        assert(map_of(v@) =~= map_of(before).insert(k@, val@)) by {
            assert forall|y: Seq<char>| #[trigger] map_of(v@).dom().contains(y) <==> map_of(
                before,
            ).insert(k@, val@).dom().contains(y) by {
                if map_of(v@).dom().contains(y) {
                    let j = choose|j: int| 0 <= j < v@.len() && (#[trigger] v@[j]).0@ == y;
                    if j < n {
                        assert(v@[j] == before[j]);
                    }
                }
                if map_of(before).insert(k@, val@).dom().contains(y) {
                    if y == k@ {
                        assert(v@[n].0@ == y);
                    } else {
                        let j = choose|j: int| 0 <= j < n && (#[trigger] before[j]).0@ == y;
                        assert(v@[j] == before[j]);
                    }
                }
            }
            assert forall|y: Seq<char>| #[trigger] map_of(v@).dom().contains(y) implies map_of(
                v@,
            )[y] == map_of(before).insert(k@, val@)[y] by {
                let j = choose|j: int| 0 <= j < v@.len() && (#[trigger] v@[j]).0@ == y;
                lemma_map_of_at(v@, j);
                if j < n {
                    assert(v@[j] == before[j]);
                    lemma_map_of_at(before, j);
                }
            }
        }
    }
}

/// Whether some entry has source `x`.
fn map_has_value(v: &Vec<(String, String)>, x: &String) -> (r: bool)
    requires
        distinct_keys(v@),
    ensures
        r == exists|k: Seq<char>| #[trigger] map_of(v@).dom().contains(k) && map_of(v@)[k] == x@,
{
    let mut i: usize = 0;
    while i < v.len()
        invariant
            i <= v.len(),
            distinct_keys(v@),
            forall|j: int| 0 <= j < i ==> (#[trigger] v@[j]).1@ != x@,
        decreases v.len() - i,
    {
        if v[i].1 == *x {
            proof {
                lemma_map_of_at(v@, i as int);
            }
            return true;
        }
        i += 1;
    }
    proof {
        assert forall|k: Seq<char>| #[trigger] map_of(v@).dom().contains(k) implies map_of(v@)[k]
            != x@ by {
            let j = choose|j: int| 0 <= j < v@.len() && (#[trigger] v@[j]).0@ == k;
            lemma_map_of_at(v@, j);
        }
    }
    false
}

// ---------------------------------------------------------------------
// Change batches
// ---------------------------------------------------------------------

/// A batch of file changes in a repository.
pub struct RepositoryUpdate {
    pub added: Vec<String>,
    pub modified: Vec<String>,
    pub deleted: Vec<String>,
    /// `(to, from)`: the file now at `to` was at `from`.
    pub moved: Vec<(String, String)>,
    pub commit_updated: bool,
    pub index_lock_detected: bool,
}

/// The meaning of a batch: sets of paths, a map from move destination to
/// move source, and two flags.
pub struct UpdateModel {
    pub added: Set<Seq<char>>,
    pub modified: Set<Seq<char>>,
    pub deleted: Set<Seq<char>>,
    pub moved: Map<Seq<char>, Seq<char>>,
    pub commit_updated: bool,
    pub index_lock_detected: bool,
}

impl RepositoryUpdate {
    /// Each set holds a path at most once; each move destination occurs
    /// once.
    pub open spec fn wf(&self) -> bool {
        &&& distinct(self.added@)
        &&& distinct(self.modified@)
        &&& distinct(self.deleted@)
        &&& distinct_keys(self.moved@)
    }

    pub open spec fn model(&self) -> UpdateModel {
        UpdateModel {
            added: set_of(self.added@),
            modified: set_of(self.modified@),
            deleted: set_of(self.deleted@),
            moved: map_of(self.moved@),
            commit_updated: self.commit_updated,
            index_lock_detected: self.index_lock_detected,
        }
    }

    /// An empty batch.
    pub fn new() -> (r: Self)
        ensures
            r.wf(),
            r.model() == empty_model(),
    {
        let r = RepositoryUpdate {
            added: Vec::new(),
            modified: Vec::new(),
            deleted: Vec::new(),
            moved: Vec::new(),
            commit_updated: false,
            index_lock_detected: false,
        };
        proof {
            assert(r.model().added =~= Set::<Seq<char>>::empty());
            assert(r.model().modified =~= Set::<Seq<char>>::empty());
            assert(r.model().deleted =~= Set::<Seq<char>>::empty());
            assert(r.model().moved =~= Map::<Seq<char>, Seq<char>>::empty());
        }
        r
    }

    /// Nothing changed and neither flag is set.
    pub open spec fn is_empty_spec(&self) -> bool {
        &&& self.added@.len() == 0
        &&& self.modified@.len() == 0
        &&& self.deleted@.len() == 0
        &&& self.moved@.len() == 0
        &&& !self.commit_updated
        &&& !self.index_lock_detected
    }

    /// Nothing changed and neither flag is set.
    pub fn is_empty(&self) -> (r: bool)
        ensures
            r == self.is_empty_spec(),
    {
        self.added.len() == 0 && self.modified.len() == 0 && self.deleted.len() == 0
            && self.moved.len() == 0 && !self.commit_updated && !self.index_lock_detected
    }
}

pub open spec fn empty_model() -> UpdateModel {
    UpdateModel {
        added: Set::empty(),
        modified: Set::empty(),
        deleted: Set::empty(),
        moved: Map::empty(),
        commit_updated: false,
        index_lock_detected: false,
    }
}

pub open spec fn paths(v: Seq<String>) -> Seq<Seq<char>> {
    v.map_values(|s: String| s@)
}

pub open spec fn path_pairs(v: Seq<(String, String)>) -> Seq<(Seq<char>, Seq<char>)> {
    v.map_values(|p: (String, String)| (p.0@, p.1@))
}

/// A move `from -> to`. A move of a file that the batch added or modified
/// renames that entry; otherwise a move whose source was itself a move
/// destination collapses into one move from the original source.
pub open spec fn move_step(m: UpdateModel, to: Seq<char>, from: Seq<char>) -> UpdateModel {
    if m.added.contains(from) {
        UpdateModel { added: m.added.remove(from).insert(to), ..m }
    } else if m.modified.contains(from) {
        UpdateModel { modified: m.modified.remove(from).insert(to), ..m }
    } else {
        let original = if m.moved.dom().contains(from) {
            m.moved[from]
        } else {
            from
        };
        UpdateModel { moved: m.moved.remove(from).insert(to, original), ..m }
    }
}

/// The moves applied in order.
pub open spec fn apply_moves(m: UpdateModel, moves: Seq<(Seq<char>, Seq<char>)>) -> UpdateModel
    decreases moves.len(),
{
    if moves.len() == 0 {
        m
    } else {
        apply_moves(move_step(m, moves[0].0, moves[0].1), moves.drop_first())
    }
}

/// An addition cancels an earlier deletion, move to, or modification.
pub open spec fn add_step(m: UpdateModel, p: Seq<char>) -> UpdateModel {
    UpdateModel {
        deleted: m.deleted.remove(p),
        moved: m.moved.remove(p),
        modified: m.modified.remove(p),
        added: m.added.insert(p),
        ..m
    }
}

/// A modification of an added file stays an addition.
pub open spec fn modify_step(m: UpdateModel, p: Seq<char>) -> UpdateModel {
    if m.added.contains(p) {
        m
    } else {
        UpdateModel {
            deleted: m.deleted.remove(p),
            moved: m.moved.remove(p),
            modified: m.modified.insert(p),
            ..m
        }
    }
}

/// A deletion cancels an addition; deleting a move destination deletes
/// the move's source; deleting a move source is already implied.
pub open spec fn delete_step(m: UpdateModel, p: Seq<char>) -> UpdateModel {
    if m.added.contains(p) {
        UpdateModel { added: m.added.remove(p), ..m }
    } else {
        let m1 = UpdateModel { modified: m.modified.remove(p), ..m };
        if m1.moved.dom().contains(p) {
            UpdateModel { moved: m1.moved.remove(p), deleted: m1.deleted.insert(m1.moved[p]), ..m1 }
        } else if exists|k: Seq<char>| #[trigger] m1.moved.dom().contains(k) && m1.moved[k] == p {
            m1
        } else {
            UpdateModel { deleted: m1.deleted.insert(p), ..m1 }
        }
    }
}

pub open spec fn apply_adds(m: UpdateModel, ps: Seq<Seq<char>>) -> UpdateModel
    decreases ps.len(),
{
    if ps.len() == 0 {
        m
    } else {
        apply_adds(add_step(m, ps[0]), ps.drop_first())
    }
}

pub open spec fn apply_modifies(m: UpdateModel, ps: Seq<Seq<char>>) -> UpdateModel
    decreases ps.len(),
{
    if ps.len() == 0 {
        m
    } else {
        apply_modifies(modify_step(m, ps[0]), ps.drop_first())
    }
}

pub open spec fn apply_deletes(m: UpdateModel, ps: Seq<Seq<char>>) -> UpdateModel
    decreases ps.len(),
{
    if ps.len() == 0 {
        m
    } else {
        apply_deletes(delete_step(m, ps[0]), ps.drop_first())
    }
}

/// The coalesced batch: moves first, then additions, modifications and
/// deletions, then the flags of both batches.
pub open spec fn merged(acc: UpdateModel, incoming: &RepositoryUpdate) -> UpdateModel {
    let m1 = apply_moves(acc, path_pairs(incoming.moved@));
    let m4 = apply_deletes(
        apply_modifies(apply_adds(m1, paths(incoming.added@)), paths(incoming.modified@)),
        paths(incoming.deleted@),
    );
    UpdateModel {
        commit_updated: m4.commit_updated || incoming.commit_updated,
        index_lock_detected: m4.index_lock_detected || incoming.index_lock_detected,
        ..m4
    }
}

/// Coalescing merge for RepositoryUpdate with normalization rules.
pub fn merge_repository_updates(acc: &mut RepositoryUpdate, incoming: &RepositoryUpdate)
    requires
        old(acc).wf(),
    ensures
        final(acc).wf(),
        final(acc).model() == merged(old(acc).model(), incoming),
{
    let ghost m0 = acc.model();
    let ghost moves = path_pairs(incoming.moved@);
    proof {
        assert(moves.skip(0) =~= moves);
    }
    // 1) Moves first
    let mut i: usize = 0;
    while i < incoming.moved.len()
        invariant
            i <= incoming.moved.len(),
            acc.wf(),
            moves == path_pairs(incoming.moved@),
            m0 == old(acc).model(),
            apply_moves(m0, moves) == apply_moves(acc.model(), moves.skip(i as int)),
        decreases incoming.moved.len() - i,
    {
        let to = &incoming.moved[i].0;
        let from = &incoming.moved[i].1;
        let ghost before = acc.model();
        proof {
            assert(moves.skip(i as int)[0] == (to@, from@));
            assert(moves.skip(i as int).drop_first() =~= moves.skip(i + 1));
        }
        if set_remove(&mut acc.added, from) {
            set_insert(&mut acc.added, to.clone());
        } else if set_remove(&mut acc.modified, from) {
            set_insert(&mut acc.modified, to.clone());
        } else {
            // Collapse chain: if `from` was a prior destination, pull its original source
            let original_from = match map_remove(&mut acc.moved, from) {
                Some(prev_from) => prev_from,
                None => from.clone(),
            };
            map_insert(&mut acc.moved, to.clone(), original_from);
        }
        proof {
            assert(acc.model() == move_step(before, to@, from@));
        }
        i += 1;
    }
    let ghost m1 = acc.model();
    proof {
        assert(moves.skip(incoming.moved.len() as int) =~= Seq::<(Seq<char>, Seq<char>)>::empty());
        assert(apply_moves(m0, moves) == m1);
    }
    // 2) Adds next
    let ghost adds = paths(incoming.added@);
    proof {
        assert(adds.skip(0) =~= adds);
    }
    let mut i: usize = 0;
    while i < incoming.added.len()
        invariant
            i <= incoming.added.len(),
            acc.wf(),
            adds == paths(incoming.added@),
            apply_adds(m1, adds) == apply_adds(acc.model(), adds.skip(i as int)),
        decreases incoming.added.len() - i,
    {
        let p = &incoming.added[i];
        let ghost before = acc.model();
        proof {
            assert(adds.skip(i as int)[0] == p@);
            assert(adds.skip(i as int).drop_first() =~= adds.skip(i + 1));
        }
        set_remove(&mut acc.deleted, p);
        map_remove(&mut acc.moved, p);
        set_remove(&mut acc.modified, p);
        set_insert(&mut acc.added, p.clone());
        proof {
            assert(acc.model() == add_step(before, p@));
        }
        i += 1;
    }
    let ghost m2 = acc.model();
    proof {
        assert(adds.skip(incoming.added.len() as int) =~= Seq::<Seq<char>>::empty());
    }
    // 3) Modifies next
    let ghost mods = paths(incoming.modified@);
    proof {
        assert(mods.skip(0) =~= mods);
    }
    let mut i: usize = 0;
    while i < incoming.modified.len()
        invariant
            i <= incoming.modified.len(),
            acc.wf(),
            mods == paths(incoming.modified@),
            apply_modifies(m2, mods) == apply_modifies(acc.model(), mods.skip(i as int)),
        decreases incoming.modified.len() - i,
    {
        let p = &incoming.modified[i];
        let ghost before = acc.model();
        proof {
            assert(mods.skip(i as int)[0] == p@);
            assert(mods.skip(i as int).drop_first() =~= mods.skip(i + 1));
        }
        if !set_contains(&acc.added, p) {
            set_remove(&mut acc.deleted, p);
            map_remove(&mut acc.moved, p);
            set_insert(&mut acc.modified, p.clone());
        }
        proof {
            assert(acc.model() == modify_step(before, p@));
        }
        i += 1;
    }
    let ghost m3 = acc.model();
    proof {
        assert(mods.skip(incoming.modified.len() as int) =~= Seq::<Seq<char>>::empty());
    }
    // 4) Deletes last
    let ghost dels = paths(incoming.deleted@);
    proof {
        assert(dels.skip(0) =~= dels);
    }
    let mut i: usize = 0;
    while i < incoming.deleted.len()
        invariant
            i <= incoming.deleted.len(),
            acc.wf(),
            dels == paths(incoming.deleted@),
            apply_deletes(m3, dels) == apply_deletes(acc.model(), dels.skip(i as int)),
        decreases incoming.deleted.len() - i,
    {
        let p = &incoming.deleted[i];
        let ghost before = acc.model();
        proof {
            assert(dels.skip(i as int)[0] == p@);
            assert(dels.skip(i as int).drop_first() =~= dels.skip(i + 1));
        }
        // Added then removed within window => cancel
        if set_remove(&mut acc.added, p) {
            proof {
                assert(acc.model() == delete_step(before, p@));
            }
        } else {
            set_remove(&mut acc.modified, p);
            let ghost mid = acc.model();
            // Removing a move target => delete original source instead
            match map_remove(&mut acc.moved, p) {
                Some(from) => {
                    set_insert(&mut acc.deleted, from);
                    proof {
                        assert(acc.model() == delete_step(before, p@));
                    }
                },
                None => {
                    // Deleting the source of a recorded move is redundant
                    if !map_has_value(&acc.moved, p) {
                        set_insert(&mut acc.deleted, p.clone());
                    }
                    proof {
                        assert(acc.moved@ == acc.moved@);
                        assert(map_of(acc.moved@) =~= mid.moved);
                        assert(acc.model() == delete_step(before, p@));
                    }
                },
            }
        }
        i += 1;
    }
    proof {
        assert(dels.skip(incoming.deleted.len() as int) =~= Seq::<Seq<char>>::empty());
    }
    acc.commit_updated = acc.commit_updated || incoming.commit_updated;
    acc.index_lock_detected = acc.index_lock_detected || incoming.index_lock_detected;
}

// ---------------------------------------------------------------------
// Laws of the merge
// ---------------------------------------------------------------------

proof fn lemma_moves_keep_flags(m: UpdateModel, moves: Seq<(Seq<char>, Seq<char>)>)
    ensures
        apply_moves(m, moves).commit_updated == m.commit_updated,
        apply_moves(m, moves).index_lock_detected == m.index_lock_detected,
    decreases moves.len(),
{
    if moves.len() > 0 {
        lemma_moves_keep_flags(move_step(m, moves[0].0, moves[0].1), moves.drop_first());
    }
}

proof fn lemma_adds_keep_flags(m: UpdateModel, ps: Seq<Seq<char>>)
    ensures
        apply_adds(m, ps).commit_updated == m.commit_updated,
        apply_adds(m, ps).index_lock_detected == m.index_lock_detected,
    decreases ps.len(),
{
    if ps.len() > 0 {
        lemma_adds_keep_flags(add_step(m, ps[0]), ps.drop_first());
    }
}

proof fn lemma_modifies_keep_flags_and_added(m: UpdateModel, ps: Seq<Seq<char>>)
    ensures
        apply_modifies(m, ps).commit_updated == m.commit_updated,
        apply_modifies(m, ps).index_lock_detected == m.index_lock_detected,
        apply_modifies(m, ps).added == m.added,
    decreases ps.len(),
{
    if ps.len() > 0 {
        lemma_modifies_keep_flags_and_added(modify_step(m, ps[0]), ps.drop_first());
    }
}

proof fn lemma_deletes_keep_flags(m: UpdateModel, ps: Seq<Seq<char>>)
    ensures
        apply_deletes(m, ps).commit_updated == m.commit_updated,
        apply_deletes(m, ps).index_lock_detected == m.index_lock_detected,
    decreases ps.len(),
{
    if ps.len() > 0 {
        lemma_deletes_keep_flags(delete_step(m, ps[0]), ps.drop_first());
    }
}

/// Additions never leave the added set.
proof fn lemma_adds_grow_added(m: UpdateModel, ps: Seq<Seq<char>>, x: Seq<char>)
    requires
        m.added.contains(x) || ps.contains(x),
    ensures
        apply_adds(m, ps).added.contains(x),
    decreases ps.len(),
{
    if ps.len() > 0 {
        if !m.added.contains(x) && ps[0] != x {
            let k = choose|k: int| 0 <= k < ps.len() && ps[k] == x;
            assert(ps.drop_first()[k - 1] == x);
        }
        lemma_adds_grow_added(add_step(m, ps[0]), ps.drop_first(), x);
    }
}

/// Deletions never put a path into the added set.
proof fn lemma_deletes_shrink_added(m: UpdateModel, ps: Seq<Seq<char>>, x: Seq<char>)
    requires
        !m.added.contains(x),
    ensures
        !apply_deletes(m, ps).added.contains(x),
    decreases ps.len(),
{
    if ps.len() > 0 {
        lemma_deletes_shrink_added(delete_step(m, ps[0]), ps.drop_first(), x);
    }
}

/// A path that the deletions do not mention keeps its place in the added
/// set.
proof fn lemma_deletes_keep_other_added(m: UpdateModel, ps: Seq<Seq<char>>, x: Seq<char>)
    requires
        m.added.contains(x),
        !ps.contains(x),
    ensures
        apply_deletes(m, ps).added.contains(x),
    decreases ps.len(),
{
    if ps.len() > 0 {
        assert(ps[0] != x);
        assert(!ps.drop_first().contains(x)) by {
            if ps.drop_first().contains(x) {
                let k = choose|k: int| 0 <= k < ps.drop_first().len() && ps.drop_first()[k] == x;
                assert(ps[k + 1] == x);
            }
        }
        lemma_deletes_keep_other_added(delete_step(m, ps[0]), ps.drop_first(), x);
    }
}

/// A path that the deletions mention leaves the added set.
proof fn lemma_deletes_remove_added(m: UpdateModel, ps: Seq<Seq<char>>, x: Seq<char>)
    requires
        ps.contains(x),
    ensures
        !apply_deletes(m, ps).added.contains(x),
    decreases ps.len(),
{
    if ps[0] == x {
        lemma_deletes_shrink_added(delete_step(m, ps[0]), ps.drop_first(), x);
    } else {
        let k = choose|k: int| 0 <= k < ps.len() && ps[k] == x;
        assert(ps.drop_first()[k - 1] == x);
        lemma_deletes_remove_added(delete_step(m, ps[0]), ps.drop_first(), x);
    }
}

/// Merging a batch with no changes and no flags leaves the accumulated
/// batch as it was.
pub proof fn merge_of_empty_batch_changes_nothing(acc: UpdateModel, incoming: &RepositoryUpdate)
    requires
        incoming.is_empty_spec(),
    ensures
        merged(acc, incoming) == acc,
{
    assert(path_pairs(incoming.moved@) =~= Seq::<(Seq<char>, Seq<char>)>::empty());
    assert(paths(incoming.added@) =~= Seq::<Seq<char>>::empty());
    assert(paths(incoming.modified@) =~= Seq::<Seq<char>>::empty());
    assert(paths(incoming.deleted@) =~= Seq::<Seq<char>>::empty());
}

/// The merged flags are those of either batch: a commit or index-lock
/// flag is recorded when the earlier or the incoming batch recorded it.
pub proof fn merge_keeps_flags(acc: UpdateModel, incoming: &RepositoryUpdate)
    ensures
        merged(acc, incoming).commit_updated == (acc.commit_updated || incoming.commit_updated),
        merged(acc, incoming).index_lock_detected == (acc.index_lock_detected
            || incoming.index_lock_detected),
{
    let m1 = apply_moves(acc, path_pairs(incoming.moved@));
    lemma_moves_keep_flags(acc, path_pairs(incoming.moved@));
    let m2 = apply_adds(m1, paths(incoming.added@));
    let m3 = apply_modifies(m2, paths(incoming.modified@));
    lemma_adds_keep_flags(m1, paths(incoming.added@));
    lemma_modifies_keep_flags_and_added(m2, paths(incoming.modified@));
    lemma_deletes_keep_flags(m3, paths(incoming.deleted@));
}

/// A path that the incoming batch deletes is not among the merged
/// additions.
pub proof fn merge_drops_deleted_additions(
    acc: UpdateModel,
    incoming: &RepositoryUpdate,
    p: Seq<char>,
)
    requires
        paths(incoming.deleted@).contains(p),
    ensures
        !merged(acc, incoming).added.contains(p),
{
    let m1 = apply_moves(acc, path_pairs(incoming.moved@));
    let m3 = apply_modifies(apply_adds(m1, paths(incoming.added@)), paths(incoming.modified@));
    lemma_deletes_remove_added(m3, paths(incoming.deleted@), p);
}

/// A path that the incoming batch adds and does not delete is among the
/// merged additions.
pub proof fn merge_keeps_surviving_additions(
    acc: UpdateModel,
    incoming: &RepositoryUpdate,
    p: Seq<char>,
)
    requires
        paths(incoming.added@).contains(p),
        !paths(incoming.deleted@).contains(p),
    ensures
        merged(acc, incoming).added.contains(p),
{
    let m1 = apply_moves(acc, path_pairs(incoming.moved@));
    let m2 = apply_adds(m1, paths(incoming.added@));
    lemma_adds_grow_added(m1, paths(incoming.added@), p);
    lemma_modifies_keep_flags_and_added(m2, paths(incoming.modified@));
    let m3 = apply_modifies(m2, paths(incoming.modified@));
    lemma_deletes_keep_other_added(m3, paths(incoming.deleted@), p);
}

/// Moving a file that an earlier move put in place collapses the chain:
/// the merged batch records one move from the original source, and the
/// intermediate destination is gone.
pub proof fn merge_collapses_move_chains(
    acc: UpdateModel,
    incoming: &RepositoryUpdate,
    to: Seq<char>,
    mid: Seq<char>,
)
    requires
        acc.moved.dom().contains(mid),
        !acc.added.contains(mid),
        !acc.modified.contains(mid),
        to != mid,
        path_pairs(incoming.moved@) == seq![(to, mid)],
        incoming.added@.len() == 0,
        incoming.modified@.len() == 0,
        incoming.deleted@.len() == 0,
    ensures
        merged(acc, incoming).moved.dom().contains(to),
        merged(acc, incoming).moved[to] == acc.moved[mid],
        !merged(acc, incoming).moved.dom().contains(mid),
{
    let moves = path_pairs(incoming.moved@);
    let empty = Seq::<Seq<char>>::empty();
    assert(moves.drop_first() =~= Seq::<(Seq<char>, Seq<char>)>::empty());
    assert(paths(incoming.added@) =~= empty);
    assert(paths(incoming.modified@) =~= empty);
    assert(paths(incoming.deleted@) =~= empty);
    let m1 = move_step(acc, to, mid);
    assert(apply_moves(m1, moves.drop_first()) == m1);
    assert(apply_moves(acc, moves) == m1);
    assert(apply_adds(m1, empty) == m1);
    assert(apply_modifies(m1, empty) == m1);
    assert(apply_deletes(m1, empty) == m1);
    assert(m1.moved == acc.moved.remove(mid).insert(to, acc.moved[mid]));
}

/// Deleting the destination of a recorded move deletes the move's source
/// instead, and forgets the move.
pub proof fn merge_deletes_source_of_deleted_move_target(
    acc: UpdateModel,
    incoming: &RepositoryUpdate,
    p: Seq<char>,
)
    requires
        acc.moved.dom().contains(p),
        !acc.added.contains(p),
        paths(incoming.deleted@) == seq![p],
        incoming.moved@.len() == 0,
        incoming.added@.len() == 0,
        incoming.modified@.len() == 0,
    ensures
        merged(acc, incoming).deleted.contains(acc.moved[p]),
        !merged(acc, incoming).moved.dom().contains(p),
{
    let ds = paths(incoming.deleted@);
    let empty = Seq::<Seq<char>>::empty();
    assert(path_pairs(incoming.moved@) =~= Seq::<(Seq<char>, Seq<char>)>::empty());
    assert(paths(incoming.added@) =~= empty);
    assert(paths(incoming.modified@) =~= empty);
    assert(ds.drop_first() =~= empty);
    assert(apply_moves(acc, path_pairs(incoming.moved@)) == acc);
    assert(apply_adds(acc, empty) == acc);
    assert(apply_modifies(acc, empty) == acc);
    let m = delete_step(acc, p);
    assert(apply_deletes(m, empty) == m);
    assert(apply_deletes(acc, ds) == m);
    assert(m.deleted.contains(acc.moved[p]));
}

/// `p` is recorded as added, or as modified and neither deleted nor the
/// destination of a move.
pub open spec fn reported_as_present(m: UpdateModel, p: Seq<char>) -> bool {
    ||| m.added.contains(p)
    ||| (m.modified.contains(p) && !m.deleted.contains(p) && !m.moved.dom().contains(p))
}

/// `q` is the destination of one of `moves`.
pub open spec fn is_move_destination(moves: Seq<(Seq<char>, Seq<char>)>, q: Seq<char>) -> bool {
    exists|i: int| 0 <= i < moves.len() && (#[trigger] moves[i]).0 == q
}

proof fn lemma_moves_destinations(m: UpdateModel, moves: Seq<(Seq<char>, Seq<char>)>, q: Seq<char>)
    requires
        apply_moves(m, moves).moved.dom().contains(q),
    ensures
        m.moved.dom().contains(q) || is_move_destination(moves, q),
    decreases moves.len(),
{
    if moves.len() > 0 {
        let m1 = move_step(m, moves[0].0, moves[0].1);
        lemma_moves_destinations(m1, moves.drop_first(), q);
        if is_move_destination(moves.drop_first(), q) {
            let i = choose|i: int| 0 <= i < moves.drop_first().len() && (#[trigger] moves.drop_first()[i]).0 == q;
            assert(moves[i + 1] == moves.drop_first()[i]);
        }
        if m1.moved.dom().contains(q) && !m.moved.dom().contains(q) {
            assert(moves[0].0 == q);
        }
    }
}

proof fn lemma_adds_shrink_moves(m: UpdateModel, ps: Seq<Seq<char>>, q: Seq<char>)
    requires
        apply_adds(m, ps).moved.dom().contains(q),
    ensures
        m.moved.dom().contains(q),
    decreases ps.len(),
{
    if ps.len() > 0 {
        lemma_adds_shrink_moves(add_step(m, ps[0]), ps.drop_first(), q);
    }
}

proof fn lemma_modifies_shrink_moves(m: UpdateModel, ps: Seq<Seq<char>>, q: Seq<char>)
    requires
        apply_modifies(m, ps).moved.dom().contains(q),
    ensures
        m.moved.dom().contains(q),
    decreases ps.len(),
{
    if ps.len() > 0 {
        lemma_modifies_shrink_moves(modify_step(m, ps[0]), ps.drop_first(), q);
    }
}

proof fn lemma_modifies_report_present(m: UpdateModel, ps: Seq<Seq<char>>, p: Seq<char>)
    requires
        ps.contains(p) || reported_as_present(m, p),
    ensures
        reported_as_present(apply_modifies(m, ps), p),
    decreases ps.len(),
{
    if ps.len() > 0 {
        let m1 = modify_step(m, ps[0]);
        assert(reported_as_present(m1, p) || ps.drop_first().contains(p)) by {
            if ps[0] != p && ps.contains(p) {
                let k = choose|k: int| 0 <= k < ps.len() && ps[k] == p;
                assert(ps.drop_first()[k - 1] == p);
            }
        }
        lemma_modifies_report_present(m1, ps.drop_first(), p);
    }
}

proof fn lemma_deletes_keep_present(m: UpdateModel, ps: Seq<Seq<char>>, p: Seq<char>)
    requires
        reported_as_present(m, p),
        !ps.contains(p),
        forall|i: int| 0 <= i < ps.len() ==> !m.moved.dom().contains(#[trigger] ps[i]),
    ensures
        reported_as_present(apply_deletes(m, ps), p),
    decreases ps.len(),
{
    if ps.len() > 0 {
        let q = ps[0];
        assert(q != p) by {
            assert(ps[0] == q);
        }
        let m1 = delete_step(m, q);
        assert(m1.moved == m.moved);
        assert(!ps.drop_first().contains(p)) by {
            if ps.drop_first().contains(p) {
                let k = choose|k: int| 0 <= k < ps.drop_first().len() && ps.drop_first()[k] == p;
                assert(ps[k + 1] == p);
            }
        }
        assert forall|i: int| 0 <= i < ps.drop_first().len() implies !m1.moved.dom().contains(
            #[trigger] ps.drop_first()[i],
        ) by {
            assert(ps.drop_first()[i] == ps[i + 1]);
        }
        lemma_deletes_keep_present(m1, ps.drop_first(), p);
    }
}

/// A path that the incoming batch modifies comes out of the merge as
/// present: added, or modified and neither deleted nor a move destination.
/// So a file deleted earlier in the window and written again is reported
/// modified, not deleted. This holds unless a deletion of the incoming
/// batch reaches the path through a move: the path itself deleted, or a
/// deleted path that is the destination of a recorded move (whose source
/// the merge then deletes).
pub proof fn merge_reports_modified_path_present(
    acc: UpdateModel,
    incoming: &RepositoryUpdate,
    p: Seq<char>,
)
    requires
        paths(incoming.modified@).contains(p),
        !paths(incoming.deleted@).contains(p),
        forall|q: Seq<char>|
            #[trigger] paths(incoming.deleted@).contains(q) ==> !acc.moved.dom().contains(q)
                && !is_move_destination(path_pairs(incoming.moved@), q),
    ensures
        reported_as_present(merged(acc, incoming), p),
{
    let moves = path_pairs(incoming.moved@);
    let adds = paths(incoming.added@);
    let mods = paths(incoming.modified@);
    let dels = paths(incoming.deleted@);
    let m1 = apply_moves(acc, moves);
    let m2 = apply_adds(m1, adds);
    let m3 = apply_modifies(m2, mods);
    lemma_modifies_report_present(m2, mods, p);
    assert forall|i: int| 0 <= i < dels.len() implies !m3.moved.dom().contains(#[trigger] dels[i]) by {
        let q = dels[i];
        assert(dels.contains(q));
        if m3.moved.dom().contains(q) {
            lemma_modifies_shrink_moves(m2, mods, q);
            lemma_adds_shrink_moves(m1, adds, q);
            lemma_moves_destinations(acc, moves, q);
        }
    }
    lemma_deletes_keep_present(m3, dels, p);
}

/// `p` is recorded as added and as nothing else.
pub open spec fn reported_only_as_added(m: UpdateModel, p: Seq<char>) -> bool {
    &&& m.added.contains(p)
    &&& !m.modified.contains(p)
    &&& !m.deleted.contains(p)
    &&& !m.moved.dom().contains(p)
}

/// `p` is neither added, nor modified, nor the destination of a move.
pub open spec fn reported_absent(m: UpdateModel, p: Seq<char>) -> bool {
    &&& !m.added.contains(p)
    &&& !m.modified.contains(p)
    &&& !m.moved.dom().contains(p)
}

proof fn lemma_drop_first_contains(ps: Seq<Seq<char>>, p: Seq<char>)
    requires
        ps.len() > 0,
    ensures
        ps.contains(p) <==> (ps[0] == p || ps.drop_first().contains(p)),
{
    if ps.contains(p) && ps[0] != p {
        let k = choose|k: int| 0 <= k < ps.len() && ps[k] == p;
        assert(ps.drop_first()[k - 1] == p);
    }
    if ps.drop_first().contains(p) {
        let k = choose|k: int| 0 <= k < ps.drop_first().len() && ps.drop_first()[k] == p;
        assert(ps[k + 1] == p);
    }
}

proof fn lemma_adds_report_only_added(m: UpdateModel, ps: Seq<Seq<char>>, p: Seq<char>)
    requires
        ps.contains(p) || reported_only_as_added(m, p),
    ensures
        reported_only_as_added(apply_adds(m, ps), p),
    decreases ps.len(),
{
    if ps.len() > 0 {
        lemma_drop_first_contains(ps, p);
        lemma_adds_report_only_added(add_step(m, ps[0]), ps.drop_first(), p);
    }
}

proof fn lemma_modifies_keep_only_added(m: UpdateModel, ps: Seq<Seq<char>>, p: Seq<char>)
    requires
        reported_only_as_added(m, p),
    ensures
        reported_only_as_added(apply_modifies(m, ps), p),
    decreases ps.len(),
{
    if ps.len() > 0 {
        lemma_modifies_keep_only_added(modify_step(m, ps[0]), ps.drop_first(), p);
    }
}

proof fn lemma_deletes_keep_only_added(m: UpdateModel, ps: Seq<Seq<char>>, p: Seq<char>)
    requires
        reported_only_as_added(m, p),
        !ps.contains(p),
        forall|i: int| 0 <= i < ps.len() ==> !m.moved.dom().contains(#[trigger] ps[i]),
    ensures
        reported_only_as_added(apply_deletes(m, ps), p),
    decreases ps.len(),
{
    if ps.len() > 0 {
        lemma_drop_first_contains(ps, p);
        let m1 = delete_step(m, ps[0]);
        assert(m1.moved == m.moved);
        assert forall|i: int| 0 <= i < ps.drop_first().len() implies !m1.moved.dom().contains(
            #[trigger] ps.drop_first()[i],
        ) by {
            assert(ps.drop_first()[i] == ps[i + 1]);
        }
        lemma_deletes_keep_only_added(m1, ps.drop_first(), p);
    }
}

proof fn lemma_moves_not_adding(m: UpdateModel, moves: Seq<(Seq<char>, Seq<char>)>, p: Seq<char>)
    requires
        !m.added.contains(p),
        !is_move_destination(moves, p),
    ensures
        !apply_moves(m, moves).added.contains(p),
    decreases moves.len(),
{
    if moves.len() > 0 {
        assert(moves[0].0 != p);
        assert(!is_move_destination(moves.drop_first(), p)) by {
            if is_move_destination(moves.drop_first(), p) {
                let i = choose|i: int| 0 <= i < moves.drop_first().len() && (#[trigger] moves.drop_first()[i]).0 == p;
                assert(moves[i + 1] == moves.drop_first()[i]);
            }
        }
        lemma_moves_not_adding(move_step(m, moves[0].0, moves[0].1), moves.drop_first(), p);
    }
}

proof fn lemma_adds_not_adding(m: UpdateModel, ps: Seq<Seq<char>>, p: Seq<char>)
    requires
        !m.added.contains(p),
        !ps.contains(p),
    ensures
        !apply_adds(m, ps).added.contains(p),
    decreases ps.len(),
{
    if ps.len() > 0 {
        lemma_drop_first_contains(ps, p);
        lemma_adds_not_adding(add_step(m, ps[0]), ps.drop_first(), p);
    }
}

proof fn lemma_deletes_keep_absent(m: UpdateModel, ps: Seq<Seq<char>>, p: Seq<char>)
    requires
        reported_absent(m, p),
    ensures
        reported_absent(apply_deletes(m, ps), p),
    decreases ps.len(),
{
    if ps.len() > 0 {
        lemma_deletes_keep_absent(delete_step(m, ps[0]), ps.drop_first(), p);
    }
}

proof fn lemma_deletes_make_absent(m: UpdateModel, ps: Seq<Seq<char>>, p: Seq<char>)
    requires
        ps.contains(p),
        !m.added.contains(p),
    ensures
        reported_absent(apply_deletes(m, ps), p),
    decreases ps.len(),
{
    lemma_drop_first_contains(ps, p);
    let m1 = delete_step(m, ps[0]);
    if ps[0] == p {
        assert(reported_absent(m1, p));
        lemma_deletes_keep_absent(m1, ps.drop_first(), p);
    } else {
        lemma_deletes_make_absent(m1, ps.drop_first(), p);
    }
}

/// A path that the incoming batch adds and does not delete comes out of
/// the merge as added and as nothing else: not modified, not deleted, not
/// a move destination (an earlier deletion or move of it is cancelled).
/// This holds unless a deletion of the incoming batch reaches the path
/// through a recorded move, as in `merge_reports_modified_path_present`.
pub proof fn merge_reports_surviving_addition_only_as_added(
    acc: UpdateModel,
    incoming: &RepositoryUpdate,
    p: Seq<char>,
)
    requires
        paths(incoming.added@).contains(p),
        !paths(incoming.deleted@).contains(p),
        forall|q: Seq<char>|
            #[trigger] paths(incoming.deleted@).contains(q) ==> !acc.moved.dom().contains(q)
                && !is_move_destination(path_pairs(incoming.moved@), q),
    ensures
        reported_only_as_added(merged(acc, incoming), p),
{
    let moves = path_pairs(incoming.moved@);
    let adds = paths(incoming.added@);
    let mods = paths(incoming.modified@);
    let dels = paths(incoming.deleted@);
    let m1 = apply_moves(acc, moves);
    let m2 = apply_adds(m1, adds);
    let m3 = apply_modifies(m2, mods);
    lemma_adds_report_only_added(m1, adds, p);
    lemma_modifies_keep_only_added(m2, mods, p);
    assert forall|i: int| 0 <= i < dels.len() implies !m3.moved.dom().contains(#[trigger] dels[i]) by {
        let q = dels[i];
        assert(dels.contains(q));
        if m3.moved.dom().contains(q) {
            lemma_modifies_shrink_moves(m2, mods, q);
            lemma_adds_shrink_moves(m1, adds, q);
            lemma_moves_destinations(acc, moves, q);
        }
    }
    lemma_deletes_keep_only_added(m3, dels, p);
}

/// A path that the incoming batch deletes, and that was not added (before,
/// by the incoming batch, or as the destination of one of its moves), is
/// not reported present after the merge: not added, not modified, not a
/// move destination.
pub proof fn merge_reports_deleted_path_absent(
    acc: UpdateModel,
    incoming: &RepositoryUpdate,
    p: Seq<char>,
)
    requires
        paths(incoming.deleted@).contains(p),
        !acc.added.contains(p),
        !paths(incoming.added@).contains(p),
        !is_move_destination(path_pairs(incoming.moved@), p),
    ensures
        reported_absent(merged(acc, incoming), p),
{
    let moves = path_pairs(incoming.moved@);
    let adds = paths(incoming.added@);
    let mods = paths(incoming.modified@);
    let dels = paths(incoming.deleted@);
    let m1 = apply_moves(acc, moves);
    let m2 = apply_adds(m1, adds);
    let m3 = apply_modifies(m2, mods);
    lemma_moves_not_adding(acc, moves, p);
    lemma_adds_not_adding(m1, adds, p);
    lemma_modifies_keep_flags_and_added(m2, mods);
    lemma_deletes_make_absent(m3, dels, p);
}

// ---------------------------------------------------------------------
// Copying batches
// ---------------------------------------------------------------------

fn copy_paths(v: &Vec<String>) -> (r: Vec<String>)
    ensures
        r@ == v@,
{
    let mut r: Vec<String> = Vec::new();
    let mut i: usize = 0;
    while i < v.len()
        invariant
            i <= v.len(),
            r@ == v@.take(i as int),
        decreases v.len() - i,
    {
        r.push(v[i].clone());
        proof {
            assert(v@.take(i + 1) =~= v@.take(i as int).push(v@[i as int]));
        }
        i += 1;
    }
    proof {
        assert(v@.take(v.len() as int) =~= v@);
    }
    r
}

fn copy_pairs(v: &Vec<(String, String)>) -> (r: Vec<(String, String)>)
    ensures
        r@ == v@,
{
    let mut r: Vec<(String, String)> = Vec::new();
    let mut i: usize = 0;
    while i < v.len()
        invariant
            i <= v.len(),
            r@ == v@.take(i as int),
        decreases v.len() - i,
    {
        r.push((v[i].0.clone(), v[i].1.clone()));
        proof {
            assert(v@.take(i + 1) =~= v@.take(i as int).push(v@[i as int]));
        }
        i += 1;
    }
    proof {
        assert(v@.take(v.len() as int) =~= v@);
    }
    r
}

impl RepositoryUpdate {
    /// A copy of the batch.
    pub fn copy(&self) -> (r: Self)
        ensures
            r.added@ == self.added@,
            r.modified@ == self.modified@,
            r.deleted@ == self.deleted@,
            r.moved@ == self.moved@,
            r.commit_updated == self.commit_updated,
            r.index_lock_detected == self.index_lock_detected,
    {
        RepositoryUpdate {
            added: copy_paths(&self.added),
            modified: copy_paths(&self.modified),
            deleted: copy_paths(&self.deleted),
            moved: copy_pairs(&self.moved),
            commit_updated: self.commit_updated,
            index_lock_detected: self.index_lock_detected,
        }
    }
}

// ---------------------------------------------------------------------
// Subscribers
// ---------------------------------------------------------------------

/// Controls whether a subscriber needs Git metadata in addition to ordinary files.
#[derive(Debug, Clone, Copy, PartialEq, Eq, Structural)]
pub enum RepositoryWatchMode {
    FilesystemOnly,
    GitRepository,
}

/// The subscribers of a repository: their watch modes by id, and the next
/// id to hand out.
pub struct Subscriptions {
    next_subscriber_id: usize,
    entries: HashMap<usize, RepositoryWatchMode>,
}

/// What a new subscription asks of the directory watcher.
pub struct WatchPlan {
    pub subscriber_id: usize,
    /// The repository root becomes watched (first subscriber).
    pub start_filesystem_watching: bool,
    /// The git directories become watched (first Git-aware subscriber).
    pub start_git_watching: bool,
}

/// What the end of a subscription asks of the directory watcher.
pub struct StopPlan {
    /// The last subscriber left: stop watching the repository root.
    pub stop_filesystem_watching: bool,
    /// The last Git-aware subscriber left: stop watching git directories.
    pub stop_git_watching: bool,
}

pub open spec fn has_git_subscriber(m: Map<usize, RepositoryWatchMode>) -> bool {
    exists|id: usize| #[trigger] m.dom().contains(id) && m[id] == RepositoryWatchMode::GitRepository
}

impl Subscriptions {
    /// Every subscriber's id was handed out before.
    pub closed spec fn wf(&self) -> bool {
        forall|id: usize| #[trigger] self.entries@.dom().contains(id) ==> id < self.next_subscriber_id
    }

    /// The mode of each subscriber, by id.
    pub closed spec fn modes(&self) -> Map<usize, RepositoryWatchMode> {
        self.entries@
    }

    pub closed spec fn next_id(&self) -> usize {
        self.next_subscriber_id
    }

    pub fn new() -> (r: Self)
        ensures
            r.wf(),
            r.modes() == Map::<usize, RepositoryWatchMode>::empty(),
            r.modes().dom().finite(),
            r.next_id() == 0,
    {
        Subscriptions { next_subscriber_id: 0, entries: HashMap::new() }
    }

    /// The number of subscribers.
    pub fn watcher_count(&self) -> (r: usize)
        requires
            self.wf(),
        ensures
            r == self.modes().len(),
            self.modes().dom().finite(),
    {
        self.entries.len()
    }

    /// Whether some subscriber watches git metadata.
    pub fn has_git_repository_subscribers(&self) -> (r: bool)
        requires
            self.wf(),
        ensures
            r == has_git_subscriber(self.modes()),
    {
        let m = &self.entries;
        for (id, mode) in it: m.iter()
            invariant
                it.seq() == spec_hash_map_iter(m).remaining(),
                m@ == self.modes(),
                forall|j: int|
                    0 <= j < it.index() ==> *(#[trigger] it.seq()[j]).1
                        != RepositoryWatchMode::GitRepository,
        {
            if *mode == RepositoryWatchMode::GitRepository {
                proof {
                    let e = it.seq()[it.index() as int];
                    assert(m@.contains_key(*e.0));
                    assert(m@[*e.0] == *e.1);
                    assert(self.modes().dom().contains(*e.0));
                }
                return true;
            }
        }
        proof {
            let v = spec_hash_map_iter(m).remaining();
            assert forall|k: usize| #[trigger] m@.dom().contains(k) implies m@[k]
                != RepositoryWatchMode::GitRepository by {
                assert(m@.contains_key(k));
                assert(v.contains((&k, &m@[k])));
            }
        }
        false
    }

    /// Adds a subscriber with the next id. The root is to be watched when it
    /// is the first subscriber, the git directories when it is the first
    /// Git-aware one.
    pub fn start_watching_with_mode(&mut self, mode: RepositoryWatchMode) -> (plan: WatchPlan)
        requires
            old(self).wf(),
            old(self).next_id() < usize::MAX,
        ensures
            final(self).wf(),
            plan.subscriber_id == old(self).next_id(),
            final(self).next_id() == old(self).next_id() + 1,
            final(self).modes() == old(self).modes().insert(plan.subscriber_id, mode),
            !old(self).modes().dom().contains(plan.subscriber_id),
            final(self).modes().dom().finite(),
            final(self).modes().len() == old(self).modes().len() + 1,
            (plan.start_filesystem_watching, plan.start_git_watching) == start_plan(
                old(self).modes(),
                mode,
            ),
    {
        let subscriber_id = self.next_subscriber_id;
        let start_filesystem_watching = self.entries.is_empty();
        let start_git_watching = mode == RepositoryWatchMode::GitRepository
            && !self.has_git_repository_subscribers();
        self.entries.insert(subscriber_id, mode);
        self.next_subscriber_id = subscriber_id + 1;
        proof {
            assert(!old(self).entries@.dom().contains(subscriber_id));
        }
        WatchPlan { subscriber_id, start_filesystem_watching, start_git_watching }
    }

    /// Removes a subscriber. Nothing changes for an id that is not
    /// subscribed (`None`).
    pub fn stop_watching(&mut self, subscriber_id: usize) -> (plan: Option<StopPlan>)
        requires
            old(self).wf(),
        ensures
            final(self).wf(),
            final(self).next_id() == old(self).next_id(),
            final(self).modes() == old(self).modes().remove(subscriber_id),
            final(self).modes().dom().finite(),
            match plan {
                None => !old(self).modes().dom().contains(subscriber_id) && final(self).modes().len()
                    == old(self).modes().len(),
                Some(p) => old(self).modes().dom().contains(subscriber_id) && (
                    p.stop_filesystem_watching,
                    p.stop_git_watching,
                ) == stop_plan(old(self).modes(), subscriber_id) && final(self).modes().len()
                    == old(self).modes().len() - 1,
            },
    {
        match self.entries.remove(&subscriber_id) {
            None => {
                proof {
                    assert(old(self).entries@.remove(subscriber_id) =~= old(self).entries@);
                }
                None
            },
            Some(mode) => {
                let stop_filesystem_watching = self.entries.is_empty();
                let stop_git_watching = mode == RepositoryWatchMode::GitRepository
                    && !self.has_git_repository_subscribers();
                Some(StopPlan { stop_filesystem_watching, stop_git_watching })
            },
        }
    }

    /// The update as each subscriber sees it: filesystem-only subscribers
    /// do not see the git flags, and nobody gets an empty update.
    pub fn subscriber_updates(&self, update: &RepositoryUpdate) -> (r: Vec<(usize, RepositoryUpdate)>)
        requires
            self.wf(),
        ensures
            r@.len() <= self.modes().len(),
            forall|k: int| 0 <= k < r@.len() ==> {
                let (id, u) = #[trigger] r@[k];
                &&& self.modes().dom().contains(id)
                &&& filtered_update(u, update, self.modes()[id])
                &&& !u.is_empty_spec()
            },
            forall|id: usize|
                self.modes().dom().contains(id) && !filtered_is_empty(update, self.modes()[id])
                    ==> exists|k: int| 0 <= k < r@.len() && (#[trigger] r@[k]).0 == id,
            forall|k1: int, k2: int|
                0 <= k1 < k2 < r@.len() ==> (#[trigger] r@[k1]).0 != (#[trigger] r@[k2]).0,
    {
        let m = &self.entries;
        let ghost v = spec_hash_map_iter(m).remaining();
        let mut out: Vec<(usize, RepositoryUpdate)> = Vec::new();
        for (id, mode) in it: m.iter()
            invariant_except_break
                forall|k: int|
                    0 <= k < out@.len() ==> exists|j: int|
                        0 <= j < it.index() && (#[trigger] out@[k]).0 == *(#[trigger] v[j]).0,
            invariant
                it.seq() == v,
                v == spec_hash_map_iter(m).remaining(),
                v.no_duplicates(),
                out@.len() <= it.index(),
                forall|k: int| 0 <= k < out@.len() ==> {
                    let (id, u) = #[trigger] out@[k];
                    &&& m@.dom().contains(id)
                    &&& filtered_update(u, update, m@[id])
                    &&& !u.is_empty_spec()
                },
                forall|j: int|
                    0 <= j < it.index() && !filtered_is_empty(update, *(#[trigger] v[j]).1)
                        ==> exists|k: int| 0 <= k < out@.len() && (#[trigger] out@[k]).0 == *v[j].0,
                forall|k1: int, k2: int|
                    0 <= k1 < k2 < out@.len() ==> (#[trigger] out@[k1]).0 != (#[trigger] out@[k2]).0,
        {
            let ghost i = it.index();
            let ghost old_out = out@;
            let id = *id;
            let mode = *mode;
            proof {
                assert(m@.contains_key(*v[i].0) && m@[*v[i].0] == *v[i].1);
            }
            let mut u = update.copy();
            if mode == RepositoryWatchMode::FilesystemOnly {
                u.commit_updated = false;
                u.index_lock_detected = false;
            }
            if !u.is_empty() {
                out.push((id, u));
                proof {
                    assert(out@[out@.len() - 1].0 == id);
                    assert forall|k: int| 0 <= k < old_out.len() implies (#[trigger] out@[k]).0 != id by {
                        assert(out@[k] == old_out[k]);
                        let j = choose|j: int| 0 <= j < i && (#[trigger] old_out[k]).0 == *(#[trigger] v[j]).0;
                        assert(m@[*v[j].0] == *v[j].1);
                        if *v[j].0 == id {
                            assert(v[j] == v[i]);
                        }
                    }
                }
            }
            proof {
                assert forall|j: int|
                    0 <= j < i + 1 && !filtered_is_empty(update, *(#[trigger] v[j]).1) implies exists|k: int|
                        0 <= k < out@.len() && (#[trigger] out@[k]).0 == *v[j].0 by {
                    if j == i {
                        assert(out@[out@.len() - 1].0 == id);
                    } else {
                        let k = choose|k: int| 0 <= k < old_out.len() && (#[trigger] old_out[k]).0 == *v[j].0;
                        assert(out@[k] == old_out[k]);
                    }
                }
                assert forall|k: int| 0 <= k < out@.len() implies exists|j: int|
                    0 <= j < i + 1 && (#[trigger] out@[k]).0 == *(#[trigger] v[j]).0 by {
                    if k < old_out.len() {
                        assert(out@[k] == old_out[k]);
                        let j = choose|j: int| 0 <= j < i && (#[trigger] old_out[k]).0 == *(#[trigger] v[j]).0;
                        assert(out@[k].0 == *v[j].0);
                    } else {
                        assert(out@[k].0 == *v[i].0);
                    }
                }
                assert forall|k1: int, k2: int|
                    0 <= k1 < k2 < out@.len() implies (#[trigger] out@[k1]).0 != (#[trigger] out@[k2]).0 by {
                    assert(out@[k1] == old_out[k1]);
                    if k2 < old_out.len() {
                        assert(out@[k2] == old_out[k2]);
                    }
                }
            }
        }
        proof {
            assert forall|id: usize|
                m@.dom().contains(id) && !filtered_is_empty(update, m@[id]) implies exists|k: int|
                    0 <= k < out@.len() && (#[trigger] out@[k]).0 == id by {
                assert(m@.contains_key(id));
                assert(v.contains((&id, &m@[id])));
                let j = choose|j: int| 0 <= j < v.len() && v[j] == (&id, &m@[id]);
                assert(!filtered_is_empty(update, *v[j].1));
            }
        }
        out
    }
}

/// `u` is `update` as a subscriber with `mode` sees it.
pub open spec fn filtered_update(u: RepositoryUpdate, update: &RepositoryUpdate, mode: RepositoryWatchMode) -> bool {
    &&& u.added@ == update.added@
    &&& u.modified@ == update.modified@
    &&& u.deleted@ == update.deleted@
    &&& u.moved@ == update.moved@
    &&& u.commit_updated == (update.commit_updated && mode == RepositoryWatchMode::GitRepository)
    &&& u.index_lock_detected == (update.index_lock_detected && mode
        == RepositoryWatchMode::GitRepository)
}

/// Whether `update` is empty as a subscriber with `mode` sees it.
pub open spec fn filtered_is_empty(update: &RepositoryUpdate, mode: RepositoryWatchMode) -> bool {
    &&& update.added@.len() == 0
    &&& update.modified@.len() == 0
    &&& update.deleted@.len() == 0
    &&& update.moved@.len() == 0
    &&& !(update.commit_updated && mode == RepositoryWatchMode::GitRepository)
    &&& !(update.index_lock_detected && mode == RepositoryWatchMode::GitRepository)
}

/// What a new subscriber asks of the watcher, given the current modes:
/// `(watch the root, watch git directories)`.
pub open spec fn start_plan(m: Map<usize, RepositoryWatchMode>, mode: RepositoryWatchMode) -> (bool, bool) {
    (m.is_empty(), mode == RepositoryWatchMode::GitRepository && !has_git_subscriber(m))
}

/// What the departure of subscriber `id` asks of the watcher:
/// `(stop watching the root, stop watching git directories)`.
pub open spec fn stop_plan(m: Map<usize, RepositoryWatchMode>, id: usize) -> (bool, bool) {
    let rest = m.remove(id);
    (rest.is_empty(), m[id] == RepositoryWatchMode::GitRepository && !has_git_subscriber(rest))
}

/// A lone subscriber starts the watching of the root (and of the git
/// directories when it is Git-aware) and stops it again when it leaves,
/// leaving no subscriber behind.
pub proof fn lone_subscriber_starts_and_stops_watching(id: usize, mode: RepositoryWatchMode)
    ensures
        start_plan(Map::empty(), mode) == (true, mode == RepositoryWatchMode::GitRepository),
        stop_plan(Map::empty().insert(id, mode), id) == (true, mode
            == RepositoryWatchMode::GitRepository),
        Map::<usize, RepositoryWatchMode>::empty().insert(id, mode).remove(id) == Map::<
            usize,
            RepositoryWatchMode,
        >::empty(),
{
    let m = Map::<usize, RepositoryWatchMode>::empty();
    assert(m.insert(id, mode).remove(id) =~= m);
    assert(!has_git_subscriber(m));
}

/// While a Git-aware subscriber remains, another one neither starts nor
/// stops the watching of git directories.
pub proof fn git_watching_is_shared(m: Map<usize, RepositoryWatchMode>, id: usize, other: usize)
    requires
        m.dom().contains(other),
        m[other] == RepositoryWatchMode::GitRepository,
        id != other,
    ensures
        !start_plan(m, RepositoryWatchMode::GitRepository).1,
        m.dom().contains(id) ==> !stop_plan(m, id).1,
{
    assert(m.remove(id).dom().contains(other));
}

// ---------------------------------------------------------------------
// Debounce in front of a subscriber
// ---------------------------------------------------------------------

/// Changes waiting for a quiet period, a counter of arrivals, and whether a
/// flusher is waiting.
pub struct BufferState {
    pending: RepositoryUpdate,
    version: u64,
    flushing: bool,
}

/// The meaning of a `BufferState`.
pub struct BufferModel {
    pub pending: UpdateModel,
    pub version: u64,
    pub flushing: bool,
}

/// The state after an update arrives.
pub open spec fn after_update(s: BufferModel, update: &RepositoryUpdate) -> BufferModel {
    BufferModel {
        pending: merged(s.pending, update),
        version: ((s.version + 1) % 0x1_0000_0000_0000_0000) as u64,
        flushing: true,
    }
}

/// The state after a wait that began at `start`, and what it delivers.
pub open spec fn after_wait(s: BufferModel, start: u64) -> (BufferModel, Option<UpdateModel>) {
    if s.version == start {
        (BufferModel { pending: empty_model(), flushing: false, ..s }, Some(s.pending))
    } else {
        (s, None)
    }
}

impl BufferState {
    pub closed spec fn wf(&self) -> bool {
        self.pending.wf()
    }

    pub closed spec fn model(&self) -> BufferModel {
        BufferModel { pending: self.pending.model(), version: self.version, flushing: self.flushing }
    }

    pub fn new() -> (r: Self)
        ensures
            r.wf(),
            r.model() == (BufferModel { pending: empty_model(), version: 0, flushing: false }),
    {
        BufferState { pending: RepositoryUpdate::new(), version: 0, flushing: false }
    }

    /// An update arrives: it joins the pending changes and postpones the
    /// flush. Returns whether a flusher has to be started (none was
    /// waiting).
    pub fn record_update(&mut self, update: &RepositoryUpdate) -> (start_flusher: bool)
        requires
            old(self).wf(),
        ensures
            final(self).wf(),
            final(self).model() == after_update(old(self).model(), update),
            start_flusher == !old(self).model().flushing,
    {
        merge_repository_updates(&mut self.pending, update);
        self.version = self.version.wrapping_add(1);
        let start = !self.flushing;
        self.flushing = true;
        start
    }

    /// The arrival counter, read when a wait begins.
    pub fn version(&self) -> (r: u64)
        ensures
            r == self.model().version,
    {
        self.version
    }

    /// A wait that began at `start_version` is over. When nothing arrived
    /// meanwhile, all pending changes are handed out and the flusher ends.
    pub fn finish_wait(&mut self, start_version: u64) -> (r: Option<RepositoryUpdate>)
        requires
            old(self).wf(),
        ensures
            final(self).wf(),
            final(self).model() == after_wait(old(self).model(), start_version).0,
            match after_wait(old(self).model(), start_version).1 {
                Some(m) => r is Some && r.unwrap().wf() && r.unwrap().model() == m,
                None => r is None,
            },
    {
        if self.version == start_version {
            let mut taken = RepositoryUpdate::new();
            std::mem::swap(&mut taken, &mut self.pending);
            self.flushing = false;
            Some(taken)
        } else {
            None
        }
    }

    /// The subscriber leaves. Returns whether a waiting flusher has to be
    /// aborted.
    pub fn unsubscribe(&mut self) -> (abort: bool)
        requires
            old(self).wf(),
        ensures
            final(self).wf(),
            abort == old(self).model().flushing,
            final(self).model() == (BufferModel { flushing: false, ..old(self).model() }),
    {
        let abort = self.flushing;
        self.flushing = false;
        abort
    }
}

/// An update that arrives during a wait postpones the flush: the wait
/// delivers nothing and changes nothing.
pub proof fn update_during_wait_postpones_flush(s: BufferModel, update: &RepositoryUpdate)
    ensures
        after_wait(after_update(s, update), s.version).1 is None,
        after_wait(after_update(s, update), s.version).0 == after_update(s, update),
{
}

/// A quiet wait delivers exactly the merge of what was pending and what
/// arrived, and leaves nothing pending.
pub proof fn quiet_wait_delivers_everything(s: BufferModel, update: &RepositoryUpdate)
    ensures
        ({
            let s1 = after_update(s, update);
            let (s2, out) = after_wait(s1, s1.version);
            &&& out == Some(merged(s.pending, update))
            &&& s2.pending == empty_model()
            &&& !s2.flushing
        }),
{
}

/// The buffer after the updates `us` arrive, in order.
pub open spec fn after_updates(s: BufferModel, us: Seq<RepositoryUpdate>) -> BufferModel
    decreases us.len(),
{
    if us.len() == 0 {
        s
    } else {
        after_updates(after_update(s, &us[0]), us.drop_first())
    }
}

/// The updates `us` merged, in order, into `m`.
pub open spec fn merged_all(m: UpdateModel, us: Seq<RepositoryUpdate>) -> UpdateModel
    decreases us.len(),
{
    if us.len() == 0 {
        m
    } else {
        merged_all(merged(m, &us[0]), us.drop_first())
    }
}

/// The buffer that `BufferState::new` gives.
pub open spec fn fresh_buffer() -> BufferModel {
    BufferModel { pending: empty_model(), version: 0, flushing: false }
}

proof fn lemma_after_updates(s: BufferModel, us: Seq<RepositoryUpdate>)
    ensures
        after_updates(s, us).pending == merged_all(s.pending, us),
        after_updates(s, us).version == (s.version + us.len()) % 0x1_0000_0000_0000_0000,
        us.len() > 0 ==> after_updates(s, us).flushing,
        us.len() == 0 ==> after_updates(s, us) == s,
    decreases us.len(),
{
    if us.len() > 0 {
        let s1 = after_update(s, &us[0]);
        lemma_after_updates(s1, us.drop_first());
        let m: int = 0x1_0000_0000_0000_0000;
        vstd::arithmetic::div_mod::lemma_add_mod_noop_right(us.len() - 1, s.version + 1, m);
        assert(s1.version == (s.version + 1) % m);
    }
}

/// The debounce delivers a burst of updates once, merged. From a fresh
/// buffer, updates `us` arrive one after another: only the first starts a
/// flusher; a wait that began before a later update ends with nothing
/// delivered and nothing changed; the wait that begins after the last
/// update delivers all of them merged in order into an empty batch, and
/// leaves the buffer empty with no flusher. The arrival counter wraps
/// modulo 2^64, so a wait that spans a multiple of 2^64 arrivals is the
/// one case left out.
pub proof fn burst_of_updates_is_delivered_once(us: Seq<RepositoryUpdate>)
    requires
        0 < us.len(),
    ensures
        forall|k: int|
            0 < k < us.len() ==> (#[trigger] after_updates(fresh_buffer(), us.take(k))).flushing,
        forall|k: int, j: int|
            0 <= k < j <= us.len() && (j - k) % 0x1_0000_0000_0000_0000 != 0 ==> after_wait(
                #[trigger] after_updates(fresh_buffer(), us.take(j)),
                (#[trigger] after_updates(fresh_buffer(), us.take(k))).version,
            ) == (after_updates(fresh_buffer(), us.take(j)), None::<UpdateModel>),
        ({
            let last = after_updates(fresh_buffer(), us);
            after_wait(last, last.version) == (
                BufferModel { pending: empty_model(), version: last.version, flushing: false },
                Some(merged_all(empty_model(), us)),
            )
        }),
{
    let s0 = fresh_buffer();
    let m: int = 0x1_0000_0000_0000_0000;
    assert forall|k: int| 0 < k < us.len() implies (#[trigger] after_updates(
        s0,
        us.take(k),
    )).flushing by {
        lemma_after_updates(s0, us.take(k));
    }
    assert forall|k: int, j: int|
        0 <= k < j <= us.len() && (j - k) % m != 0 implies after_wait(
        #[trigger] after_updates(s0, us.take(j)),
        (#[trigger] after_updates(s0, us.take(k))).version,
    ) == (after_updates(s0, us.take(j)), None::<UpdateModel>) by {
        lemma_after_updates(s0, us.take(k));
        lemma_after_updates(s0, us.take(j));
        vstd::arithmetic::div_mod::lemma_mod_equivalence(j, k, m);
    }
    lemma_after_updates(s0, us);
}

// ---------------------------------------------------------------------
// Repository directories
// ---------------------------------------------------------------------

/// The shared `.git` root above a per-worktree git directory: the first of
/// the path and its ancestors whose final component is `.git`.
pub open spec fn common_git_dir_of(path: Seq<char>) -> Option<Seq<char>>
    decreases path.len(),
{
    if path_file_name(path) == Some(".git"@) {
        Some(path)
    } else {
        match path_parent(path) {
            Some(p) => if p.len() < path.len() {
                common_git_dir_of(p)
            } else {
                None
            },
            None => None,
        }
    }
}

/// The common git directory that a repository records: the shared `.git`
/// root of its external git directory, when that differs from it.
pub open spec fn common_git_directory_for(external: Option<Seq<char>>) -> Option<Seq<char>> {
    match external {
        Some(e) => match common_git_dir_of(e) {
            Some(c) => if c != e {
                Some(c)
            } else {
                None
            },
            None => None,
        },
        None => None,
    }
}

/// A code repository: its root, its git directories and its subscribers.
pub struct Repository {
    /// The root directory of the repository.
    pub root_dir: String,
    /// The exact per-worktree git directory of a linked worktree; `None`
    /// for the main worktree (whose git directory is `root_dir/.git`).
    pub external_git_directory: Option<String>,
    /// The `.git` root that all worktrees of the repository share; `None`
    /// when the repository is not a linked worktree.
    pub common_git_directory: Option<String>,
    pub subscriptions: Subscriptions,
}

pub open spec fn git_dir_text(r: Repository) -> Seq<char> {
    match r.external_git_directory {
        Some(e) => e@,
        None => path_join(r.root_dir@, ".git"@),
    }
}

impl Repository {
    /// A repository without subscribers.
    pub fn new(root_dir: String, external_git_directory: Option<String>) -> (r: Self)
        ensures
            r.root_dir == root_dir,
            r.external_git_directory == external_git_directory,
            opt_text(r.common_git_directory) == common_git_directory_for(
                opt_text(external_git_directory),
            ),
            r.subscriptions.wf(),
            r.subscriptions.modes() == Map::<usize, RepositoryWatchMode>::empty(),
            r.subscriptions.next_id() == 0,
    {
        let common_git_directory = match &external_git_directory {
            Some(ext) => match Self::derive_common_git_dir(ext.as_str()) {
                Some(common) => if crate::text::str_eq(common.as_str(), ext.as_str()) {
                    None
                } else {
                    Some(common)
                },
                None => None,
            },
            None => None,
        };
        Repository {
            root_dir,
            external_git_directory,
            common_git_directory,
            subscriptions: Subscriptions::new(),
        }
    }

    /// Walks the ancestors of the given path to find the `.git` component
    /// and returns it as the shared git root; for example
    /// `/repo/.git/worktrees/foo` gives `/repo/.git`.
    pub fn derive_common_git_dir(external_git_dir: &str) -> (r: Option<String>)
        ensures
            opt_text(r) == common_git_dir_of(external_git_dir@),
    {
        let mut cur = external_git_dir.to_owned();
        loop
            invariant
                common_git_dir_of(cur@) == common_git_dir_of(external_git_dir@),
            decreases cur@.len(),
        {
            let is_git = match file_name_of(cur.as_str()) {
                Some(name) => crate::text::str_eq(name.as_str(), ".git"),
                None => false,
            };
            if is_git {
                return Some(cur);
            }
            match parent_of(cur.as_str()) {
                Some(p) => {
                    cur = p;
                },
                None => {
                    return None;
                },
            }
        }
    }

    /// The path of the actual git directory: the external one for a
    /// worktree, `root_dir/.git` otherwise.
    pub fn git_dir(&self) -> (r: String)
        ensures
            r@ == git_dir_text(*self),
    {
        match &self.external_git_directory {
            Some(d) => d.clone(),
            None => join_path(self.root_dir.as_str(), ".git"),
        }
    }

    /// The shared `.git` root: the common directory of a linked worktree,
    /// the git directory otherwise.
    pub fn common_git_dir(&self) -> (r: String)
        ensures
            r@ == match self.common_git_directory {
                Some(c) => c@,
                None => git_dir_text(*self),
            },
    {
        match &self.common_git_directory {
            Some(c) => c.clone(),
            None => self.git_dir(),
        }
    }

    /// The branch heads directory of the shared `.git` root, for a linked
    /// worktree; the caller canonicalizes it.
    pub fn refs_heads_dir(&self) -> (r: Option<String>)
        ensures
            match self.common_git_directory {
                Some(c) => r is Some && r.unwrap()@ == path_join(path_join(c@, "refs"@), "heads"@),
                None => r is None,
            },
    {
        match &self.common_git_directory {
            Some(c) => {
                let refs = join_path(c.as_str(), "refs");
                Some(join_path(refs.as_str(), "heads"))
            },
            None => None,
        }
    }

    /// The git directories to watch: the external git directory, then the
    /// canonical branch heads directory when the caller could resolve it.
    pub fn git_watch_paths(&self, canonical_refs_heads: Option<String>) -> (r: Vec<String>)
        ensures
            line_texts(r@) == opt_seq(opt_text(self.external_git_directory)) + opt_seq(
                opt_text(canonical_refs_heads),
            ),
    {
        let mut paths: Vec<String> = Vec::new();
        match &self.external_git_directory {
            Some(d) => paths.push(d.clone()),
            None => {},
        }
        match canonical_refs_heads {
            Some(p) => paths.push(p),
            None => {},
        }
        proof {
            assert(line_texts(paths@) =~= opt_seq(opt_text(self.external_git_directory)) + opt_seq(
                opt_text(canonical_refs_heads),
            ));
        }
        paths
    }
}

/// The directories that a new subscription starts watching: the root for
/// the first subscriber, the git directories for the first Git-aware one.
pub open spec fn directories_to_watch(
    root: Seq<char>,
    git_paths: Seq<Seq<char>>,
    plan: (bool, bool),
) -> Seq<Seq<char>> {
    (if plan.0 {
        seq![root]
    } else {
        seq![]
    }) + (if plan.1 {
        git_paths
    } else {
        seq![]
    })
}

impl Repository {
    /// Starts watching this repository with a subscriber of the given
    /// mode; returns its id and the directories the watcher is to start
    /// watching. `canonical_refs_heads` is the caller's canonical form of
    /// `refs_heads_dir()`, when it could resolve it.
    pub fn start_watching_with_mode(
        &mut self,
        mode: RepositoryWatchMode,
        canonical_refs_heads: Option<String>,
    ) -> (r: (usize, Vec<String>))
        requires
            old(self).subscriptions.wf(),
            old(self).subscriptions.next_id() < usize::MAX,
        ensures
            final(self).subscriptions.wf(),
            r.0 == old(self).subscriptions.next_id(),
            final(self).subscriptions.next_id() == old(self).subscriptions.next_id() + 1,
            final(self).subscriptions.modes() == old(self).subscriptions.modes().insert(r.0, mode),
            final(self).subscriptions.modes().dom().finite(),
            final(self).subscriptions.modes().len() == old(self).subscriptions.modes().len() + 1,
            line_texts(r.1@) == directories_to_watch(
                old(self).root_dir@,
                opt_seq(opt_text(old(self).external_git_directory)) + opt_seq(
                    opt_text(canonical_refs_heads),
                ),
                start_plan(old(self).subscriptions.modes(), mode),
            ),
            final(self).root_dir == old(self).root_dir,
            final(self).external_git_directory == old(self).external_git_directory,
            final(self).common_git_directory == old(self).common_git_directory,
    {
        let git_paths = self.git_watch_paths(canonical_refs_heads);
        let plan = self.subscriptions.start_watching_with_mode(mode);
        let mut dirs: Vec<String> = Vec::new();
        if plan.start_filesystem_watching {
            dirs.push(self.root_dir.clone());
        }
        let ghost head = dirs@;
        if plan.start_git_watching {
            let mut i: usize = 0;
            while i < git_paths.len()
                invariant
                    i <= git_paths.len(),
                    line_texts(dirs@) == line_texts(head) + line_texts(git_paths@.take(i as int)),
                decreases git_paths.len() - i,
            {
                let ghost before = dirs@;
                dirs.push(git_paths[i].clone());
                proof {
                    assert(dirs@ =~= before.push(git_paths@[i as int]));
                    assert(line_texts(dirs@) =~= line_texts(before).push(git_paths@[i as int]@));
                    assert(git_paths@.take(i + 1) =~= git_paths@.take(i as int).push(git_paths@[i as int]));
                    assert(line_texts(git_paths@.take(i + 1)) =~= line_texts(git_paths@.take(i as int)).push(git_paths@[i as int]@));
                    assert(line_texts(dirs@) =~= line_texts(head) + line_texts(git_paths@.take(i + 1)));
                }
                i += 1;
            }
            proof {
                assert(git_paths@.take(git_paths@.len() as int) =~= git_paths@);
            }
        }
        proof {
            assert(line_texts(dirs@) =~= directories_to_watch(
                self.root_dir@,
                line_texts(git_paths@),
                start_plan(old(self).subscriptions.modes(), mode),
            ));
        }
        (plan.subscriber_id, dirs)
    }

    /// Starts watching with a Git-aware subscriber.
    pub fn start_watching(&mut self, canonical_refs_heads: Option<String>) -> (r: (usize, Vec<String>))
        requires
            old(self).subscriptions.wf(),
            old(self).subscriptions.next_id() < usize::MAX,
        ensures
            final(self).subscriptions.wf(),
            r.0 == old(self).subscriptions.next_id(),
            final(self).subscriptions.next_id() == old(self).subscriptions.next_id() + 1,
            final(self).subscriptions.modes() == old(self).subscriptions.modes().insert(
                r.0,
                RepositoryWatchMode::GitRepository,
            ),
            final(self).subscriptions.modes().dom().finite(),
            final(self).subscriptions.modes().len() == old(self).subscriptions.modes().len() + 1,
            line_texts(r.1@) == directories_to_watch(
                old(self).root_dir@,
                opt_seq(opt_text(old(self).external_git_directory)) + opt_seq(
                    opt_text(canonical_refs_heads),
                ),
                start_plan(old(self).subscriptions.modes(), RepositoryWatchMode::GitRepository),
            ),
            final(self).root_dir == old(self).root_dir,
            final(self).external_git_directory == old(self).external_git_directory,
            final(self).common_git_directory == old(self).common_git_directory,
    {
        self.start_watching_with_mode(RepositoryWatchMode::GitRepository, canonical_refs_heads)
    }

    /// Stops watching for the given subscriber. Returns `None` when it is
    /// not subscribed; otherwise whether to stop watching the root, and
    /// the git directories that are no longer needed (none unless the last
    /// Git-aware subscriber left).
    pub fn stop_watching(&mut self, subscriber_id: usize, canonical_refs_heads: Option<String>) -> (r:
        Option<(bool, Vec<String>)>)
        requires
            old(self).subscriptions.wf(),
        ensures
            final(self).subscriptions.wf(),
            final(self).subscriptions.next_id() == old(self).subscriptions.next_id(),
            final(self).subscriptions.modes() == old(self).subscriptions.modes().remove(subscriber_id),
            final(self).subscriptions.modes().dom().finite(),
            r is Some ==> final(self).subscriptions.modes().len() == old(self).subscriptions.modes().len()
                - 1,
            r is None ==> final(self).subscriptions.modes().len() == old(self).subscriptions.modes().len(),
            final(self).root_dir == old(self).root_dir,
            final(self).external_git_directory == old(self).external_git_directory,
            final(self).common_git_directory == old(self).common_git_directory,
            match r {
                None => !old(self).subscriptions.modes().dom().contains(subscriber_id),
                Some((stop_root, git_paths)) => {
                    &&& old(self).subscriptions.modes().dom().contains(subscriber_id)
                    &&& stop_root == stop_plan(old(self).subscriptions.modes(), subscriber_id).0
                    &&& line_texts(git_paths@) == if stop_plan(
                        old(self).subscriptions.modes(),
                        subscriber_id,
                    ).1 {
                        opt_seq(opt_text(old(self).external_git_directory)) + opt_seq(
                            opt_text(canonical_refs_heads),
                        )
                    } else {
                        seq![]
                    }
                },
            },
    {
        match self.subscriptions.stop_watching(subscriber_id) {
            None => None,
            Some(plan) => {
                if plan.stop_git_watching {
                    Some((plan.stop_filesystem_watching, self.git_watch_paths(canonical_refs_heads)))
                } else {
                    let v: Vec<String> = Vec::new();
                    proof {
                        assert(line_texts(v@) =~= seq![]);
                    }
                    Some((plan.stop_filesystem_watching, v))
                }
            },
        }
    }

    /// The number of subscribers.
    pub fn watcher_count(&self) -> (r: usize)
        requires
            self.subscriptions.wf(),
        ensures
            r == self.subscriptions.modes().len(),
            self.subscriptions.modes().dom().finite(),
    {
        self.subscriptions.watcher_count()
    }

    /// Whether some subscriber watches git metadata.
    pub fn has_git_repository_subscribers(&self) -> (r: bool)
        requires
            self.subscriptions.wf(),
        ensures
            r == has_git_subscriber(self.subscriptions.modes()),
    {
        self.subscriptions.has_git_repository_subscribers()
    }

    /// The update as each subscriber sees it: filesystem-only subscribers
    /// do not see the git flags, and nobody gets an empty update.
    pub fn subscriber_updates(&self, update: &RepositoryUpdate) -> (r: Vec<(usize, RepositoryUpdate)>)
        requires
            self.subscriptions.wf(),
        ensures
            r@.len() <= self.subscriptions.modes().len(),
            forall|k: int| 0 <= k < r@.len() ==> {
                let (id, u) = #[trigger] r@[k];
                &&& self.subscriptions.modes().dom().contains(id)
                &&& filtered_update(u, update, self.subscriptions.modes()[id])
                &&& !u.is_empty_spec()
            },
            forall|id: usize|
                self.subscriptions.modes().dom().contains(id) && !filtered_is_empty(
                    update,
                    self.subscriptions.modes()[id],
                ) ==> exists|k: int| 0 <= k < r@.len() && (#[trigger] r@[k]).0 == id,
            forall|k1: int, k2: int|
                0 <= k1 < k2 < r@.len() ==> (#[trigger] r@[k1]).0 != (#[trigger] r@[k2]).0,
    {
        self.subscriptions.subscriber_updates(update)
    }
}

pub open spec fn opt_text(o: Option<String>) -> Option<Seq<char>> {
    match o {
        Some(s) => Some(s@),
        None => None,
    }
}

pub open spec fn opt_seq(o: Option<Seq<char>>) -> Seq<Seq<char>> {
    match o {
        Some(x) => seq![x],
        None => seq![],
    }
}

pub open spec fn line_texts(v: Seq<String>) -> Seq<Seq<char>> {
    v.map_values(|s: String| s@)
}

} // verus!
