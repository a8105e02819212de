//! Respo does not provide local states in components, but a global states tree.
//! `RespoStatesTree` tree has concept of "cursor", which is a path to the current state in the tree.
//! use `branch.pick(name)` to get a child branch, and `branch.set_in_mut(change)` to update the tree.
//!
//! The data of a branch is held behind `Rc<S>`; the backup is a JSON value that the
//! tree only carries along.

use std::rc::Rc;
use vstd::prelude::*;

use crate::node::share;

verus! {

#[verifier::external_type_specification]
#[verifier::external_body]
pub struct ExJsonValue(serde_json::Value);

/// A copy of a JSON value (`serde_json::Value::clone`, derived): an equal value.
#[verifier::external_body]
fn copy_json(v: &serde_json::Value) -> (r: serde_json::Value)
    ensures
        r == *v,
{
    v.clone()
}

/// local state in component could be `None` according to the tree structure
pub struct RespoStateBranch<S: ?Sized>(pub Rc<S>);

impl<S: ?Sized> RespoStateBranch<S> {
    pub fn new(state: Rc<S>) -> (r: Self)
        ensures
            r.0 == state,
    {
        RespoStateBranch(state)
    }

    /// Another handle to the same state.
    pub fn share(&self) -> (r: Self)
        ensures
            r.0 == self.0,
    {
        RespoStateBranch(share(&self.0))
    }
}

/// Respo maintains states in a tree structure, where the keys are strings,
/// each child component "picks" a key to attach its own state to the tree,
/// and it dispatches events to global store to update the state.
pub struct RespoStatesTree<S: ?Sized> {
    /// local data
    pub data: Option<RespoStateBranch<S>>,
    pub backup: Option<serde_json::Value>,
    /// the path to the current state in the tree, use in updating
    pub cursor: Vec<String>,
    /// holding children states; for a name that occurs twice the first one counts
    pub branches: Vec<(String, Box<RespoStatesTree<S>>)>,
}

/// framework defined action for updating states branch
pub struct RespoUpdateState<S: ?Sized> {
    /// path to the state
    pub cursor: Vec<String>,
    /// dyn eq data
    pub data: Option<RespoStateBranch<S>>,
    /// backup data for restoring
    pub backup: Option<serde_json::Value>,
}

/// A states tree as plain values.
pub ghost struct StatesView<S: ?Sized> {
    pub data: Option<Rc<S>>,
    pub backup: Option<serde_json::Value>,
    pub cursor: Seq<Seq<char>>,
    pub branches: Seq<(Seq<char>, StatesView<S>)>,
}

/// The texts of a path.
pub open spec fn texts(p: Seq<String>) -> Seq<Seq<char>> {
    p.map_values(|s: String| s@)
}

/// The data handle of a branch, if any.
pub open spec fn data_view<S: ?Sized>(d: Option<RespoStateBranch<S>>) -> Option<Rc<S>> {
    match d {
        Some(b) => Some(b.0),
        None => None,
    }
}

/// The view of a states tree.
pub open spec fn tree_view<S: ?Sized>(t: RespoStatesTree<S>) -> StatesView<S>
    decreases t, 0int,
{
    StatesView {
        data: data_view(t.data),
        backup: t.backup,
        cursor: texts(t.cursor@),
        branches: branches_view(t.branches@, t.branches@.len() as int),
    }
}

/// The views of the first `k` branches.
pub open spec fn branches_view<S: ?Sized>(b: Seq<(String, Box<RespoStatesTree<S>>)>, k: int) -> Seq<
    (Seq<char>, StatesView<S>),
>
    decreases b, k,
{
    if k <= 0 || k > b.len() {
        Seq::empty()
    } else {
        branches_view(b, k - 1).push((b[k - 1].0@, tree_view(*b[k - 1].1)))
    }
}

impl<S: ?Sized> View for RespoStatesTree<S> {
    type V = StatesView<S>;

    open spec fn view(&self) -> StatesView<S> {
        tree_view(*self)
    }
}

/// `i` is the first position of a branch named `name`.
pub open spec fn first_branch_at<S: ?Sized>(b: Seq<(Seq<char>, StatesView<S>)>, name: Seq<char>, i: int) -> bool {
    &&& 0 <= i < b.len()
    &&& b[i].0 == name
    &&& forall|j: int| 0 <= j < i ==> b[j].0 != name
}

/// The first branch named `name`, if any.
pub open spec fn find_branch<S: ?Sized>(b: Seq<(Seq<char>, StatesView<S>)>, name: Seq<char>) -> Option<StatesView<S>> {
    if exists|i: int| first_branch_at(b, name, i) {
        Some(b[choose|i: int| first_branch_at(b, name, i)].1)
    } else {
        None
    }
}

/// The data and backup found by following `path` from the tree; a missing branch reads
/// as having neither.
pub open spec fn state_at<S: ?Sized>(t: StatesView<S>, path: Seq<Seq<char>>) -> (Option<Rc<S>>, Option<
    serde_json::Value,
>)
    decreases path.len(),
{
    if path.len() == 0 {
        (t.data, t.backup)
    } else {
        match find_branch(t.branches, path[0]) {
            Some(c) => state_at(c, path.drop_first()),
            None => (None, None),
        }
    }
}

/// The tree a missing branch stands for: nothing in it.
pub open spec fn empty_view<S: ?Sized>(cursor: Seq<Seq<char>>) -> StatesView<S> {
    StatesView { data: None, backup: None, cursor, branches: Seq::empty() }
}

proof fn lemma_first_exists<S: ?Sized>(b: Seq<(Seq<char>, StatesView<S>)>, name: Seq<char>, j: int)
    requires
        0 <= j < b.len(),
        b[j].0 == name,
    ensures
        exists|i: int| first_branch_at(b, name, i),
    decreases j,
{
    if exists|k: int| 0 <= k < j && b[k].0 == name {
        let k = choose|k: int| 0 <= k < j && b[k].0 == name;
        lemma_first_exists(b, name, k);
    } else {
        assert(first_branch_at(b, name, j));
    }
}

/// The tree after setting the data and backup at `path`: along the path the first branch
/// of each name is followed, and a missing one is added at the end as an empty tree whose
/// cursor extends its parent's; everything off the path stays as it was.
pub open spec fn set_view<S: ?Sized>(
    t: StatesView<S>,
    path: Seq<Seq<char>>,
    data: Option<Rc<S>>,
    backup: Option<serde_json::Value>,
) -> StatesView<S>
    decreases path.len(),
{
    if path.len() == 0 {
        StatesView { data, backup, cursor: t.cursor, branches: t.branches }
    } else if exists|i: int| first_branch_at(t.branches, path[0], i) {
        let i = choose|i: int| first_branch_at(t.branches, path[0], i);
        StatesView {
            data: t.data,
            backup: t.backup,
            cursor: t.cursor,
            branches: t.branches.update(i, (path[0], set_view(t.branches[i].1, path.drop_first(), data, backup))),
        }
    } else {
        StatesView {
            data: t.data,
            backup: t.backup,
            cursor: t.cursor,
            branches: t.branches.push(
                (path[0], set_view(empty_view(t.cursor.push(path[0])), path.drop_first(), data, backup)),
            ),
        }
    }
}

/// Setting a state below the branch `path[0]` leaves the data, backup and cursor of the tree
/// and the branch found under every other name as they were.
pub proof fn law_set_keeps_other_branches<S: ?Sized>(
    t: StatesView<S>,
    path: Seq<Seq<char>>,
    data: Option<Rc<S>>,
    backup: Option<serde_json::Value>,
)
    requires
        path.len() > 0,
    ensures
        set_view(t, path, data, backup).data == t.data,
        set_view(t, path, data, backup).backup == t.backup,
        set_view(t, path, data, backup).cursor == t.cursor,
        forall|n: Seq<char>|
            n != path[0] ==> #[trigger] find_branch(set_view(t, path, data, backup).branches, n) == find_branch(
                t.branches,
                n,
            ),
{
    let name = path[0];
    if exists|i: int| first_branch_at(t.branches, name, i) {
        let i = choose|i: int| first_branch_at(t.branches, name, i);
        lemma_find_update(t.branches, i, set_view(t.branches[i].1, path.drop_first(), data, backup));
    } else {
        assert forall|j: int| 0 <= j < t.branches.len() implies t.branches[j].0 != name by {
            if t.branches[j].0 == name {
                lemma_first_exists(t.branches, name, j);
            }
        }
        lemma_find_push(t.branches, name, set_view(empty_view(t.cursor.push(name)), path.drop_first(), data, backup));
    }
}

/// Every branch of the tree carries as cursor the path from the root to it, the tree itself `base`.
pub open spec fn cursors_from<S: ?Sized>(t: StatesView<S>, base: Seq<Seq<char>>) -> bool
    decreases t, 0int,
{
    &&& t.cursor == base
    &&& branches_from(t.branches, t.branches.len() as int, base)
}

/// The first `k` branches carry as cursors `base` extended by their names.
pub open spec fn branches_from<S: ?Sized>(b: Seq<(Seq<char>, StatesView<S>)>, k: int, base: Seq<Seq<char>>) -> bool
    decreases b, k,
{
    if k <= 0 || k > b.len() {
        true
    } else {
        branches_from(b, k - 1, base) && cursors_from(b[k - 1].1, base.push(b[k - 1].0))
    }
}

proof fn lemma_branches_from<S: ?Sized>(b: Seq<(Seq<char>, StatesView<S>)>, k: int, base: Seq<Seq<char>>)
    requires
        0 <= k <= b.len(),
    ensures
        branches_from(b, k, base) <==> forall|i: int|
            0 <= i < k ==> #[trigger] cursors_from(b[i].1, base.push(b[i].0)),
    decreases k,
{
    if k > 0 {
        lemma_branches_from(b, k - 1, base);
        if branches_from(b, k, base) {
            assert forall|i: int| 0 <= i < k implies #[trigger] cursors_from(b[i].1, base.push(b[i].0)) by {
                if i < k - 1 {
                    assert(branches_from(b, k - 1, base));
                }
            }
        }
        if forall|i: int| 0 <= i < k ==> #[trigger] cursors_from(b[i].1, base.push(b[i].0)) {
            assert(cursors_from(b[k - 1].1, base.push(b[k - 1].0)));
            assert forall|i: int| 0 <= i < k - 1 implies #[trigger] cursors_from(b[i].1, base.push(b[i].0)) by {
                assert(cursors_from(b[i].1, base.push(b[i].0)));
            }
        }
    }
}

proof fn lemma_first_branch_unique<S: ?Sized>(b: Seq<(Seq<char>, StatesView<S>)>, name: Seq<char>, i: int, j: int)
    requires
        first_branch_at(b, name, i),
        first_branch_at(b, name, j),
    ensures
        i == j,
{
    if i < j {
        assert(b[i].0 != name);
    } else if j < i {
        assert(b[j].0 != name);
    }
}

proof fn lemma_find_at<S: ?Sized>(b: Seq<(Seq<char>, StatesView<S>)>, name: Seq<char>, i: int)
    requires
        first_branch_at(b, name, i),
    ensures
        find_branch(b, name) == Some(b[i].1),
{
    let c = choose|c: int| first_branch_at(b, name, c);
    lemma_first_branch_unique(b, name, i, c);
}

proof fn lemma_empty_state<S: ?Sized>(cursor: Seq<Seq<char>>, path: Seq<Seq<char>>)
    ensures
        state_at(empty_view::<S>(cursor), path) == (Option::<Rc<S>>::None, Option::<serde_json::Value>::None),
{
    if path.len() > 0 {
        assert(find_branch(Seq::<(Seq<char>, StatesView<S>)>::empty(), path[0]) is None);
    }
}

proof fn lemma_find_update<S: ?Sized>(b: Seq<(Seq<char>, StatesView<S>)>, i: int, v: StatesView<S>)
    requires
        first_branch_at(b, b[i].0, i),
    ensures
        find_branch(b.update(i, (b[i].0, v)), b[i].0) == Some(v),
        forall|n: Seq<char>| n != b[i].0 ==> #[trigger] find_branch(b.update(i, (b[i].0, v)), n) == find_branch(b, n),
{
    let name = b[i].0;
    let b2 = b.update(i, (name, v));
    assert(first_branch_at(b2, name, i));
    lemma_find_at(b2, name, i);
    assert forall|n: Seq<char>| n != name implies #[trigger] find_branch(b2, n) == find_branch(b, n) by {
        if exists|j: int| first_branch_at(b, n, j) {
            let j = choose|j: int| first_branch_at(b, n, j);
            assert(j != i);
            assert(first_branch_at(b2, n, j));
            lemma_find_at(b, n, j);
            lemma_find_at(b2, n, j);
        } else if exists|j: int| first_branch_at(b2, n, j) {
            let j = choose|j: int| first_branch_at(b2, n, j);
            assert(j != i);
            assert forall|k: int| 0 <= k < j implies b[k].0 != n by {
                if k != i {
                    assert(b2[k] == b[k]);
                }
            }
            assert(first_branch_at(b, n, j));
        }
    }
}

proof fn lemma_find_push<S: ?Sized>(b: Seq<(Seq<char>, StatesView<S>)>, name: Seq<char>, v: StatesView<S>)
    requires
        forall|j: int| 0 <= j < b.len() ==> b[j].0 != name,
    ensures
        find_branch(b.push((name, v)), name) == Some(v),
        forall|n: Seq<char>| n != name ==> #[trigger] find_branch(b.push((name, v)), n) == find_branch(b, n),
{
    let b2 = b.push((name, v));
    assert(first_branch_at(b2, name, b.len() as int));
    lemma_find_at(b2, name, b.len() as int);
    assert forall|n: Seq<char>| n != name implies #[trigger] find_branch(b2, n) == find_branch(b, n) by {
        if exists|j: int| first_branch_at(b, n, j) {
            let j = choose|j: int| first_branch_at(b, n, j);
            assert(first_branch_at(b2, n, j));
            lemma_find_at(b, n, j);
            lemma_find_at(b2, n, j);
        } else if exists|j: int| first_branch_at(b2, n, j) {
            let j = choose|j: int| first_branch_at(b2, n, j);
            assert(j != b.len());
            assert forall|k: int| 0 <= k < j implies b[k].0 != n by {
                assert(b2[k] == b[k]);
            }
            assert(first_branch_at(b, n, j));
        }
    }
}

/// The state at a path that does not start with `name` does not depend on the branch named `name`.
proof fn lemma_state_other<S: ?Sized>(t1: StatesView<S>, t2: StatesView<S>, name: Seq<char>, q: Seq<Seq<char>>)
    requires
        q.len() > 0,
        q[0] != name,
        find_branch(t1.branches, q[0]) == find_branch(t2.branches, q[0]),
    ensures
        state_at(t1, q) == state_at(t2, q),
{
}

proof fn lemma_branches_view<S: ?Sized>(b: Seq<(String, Box<RespoStatesTree<S>>)>, k: int)
    requires
        0 <= k <= b.len(),
    ensures
        branches_view(b, k).len() == k,
        forall|i: int| 0 <= i < k ==> #[trigger] branches_view(b, k)[i] == (b[i].0@, tree_view(*b[i].1)),
    decreases k,
{
    if k > 0 {
        lemma_branches_view(b, k - 1);
        assert forall|i: int| 0 <= i < k implies #[trigger] branches_view(b, k)[i] == (b[i].0@, tree_view(*b[i].1)) by {
            if i < k - 1 {
                assert(branches_view(b, k)[i] == branches_view(b, k - 1)[i]);
            }
        }
    }
}

/// The position of the first branch named `name`, if any.
fn branch_position<S: ?Sized>(b: &Vec<(String, Box<RespoStatesTree<S>>)>, name: &str) -> (r: Option<usize>)
    ensures
        match r {
            Some(i) => i < b@.len() && first_branch_at(branches_view(b@, b@.len() as int), name@, i as int),
            None => forall|j: int| 0 <= j < b@.len() ==> b@[j].0@ != name@,
        },
{
    proof {
        lemma_branches_view(b@, b@.len() as int);
    }
    let key: String = name.to_owned();
    let mut i: usize = 0;
    while i < b.len()
        invariant
            i <= b@.len(),
            key@ == name@,
            forall|j: int| 0 <= j < i ==> b@[j].0@ != name@,
        decreases b@.len() - i,
    {
        if b[i].0 == key {
            proof {
                lemma_branches_view(b@, b@.len() as int);
            }
            return Some(i);
        }
        i = i + 1;
    }
    None
}

/// A copy of a path.
fn copy_path(p: &Vec<String>) -> (r: Vec<String>)
    ensures
        texts(r@) == texts(p@),
{
    let mut r: Vec<String> = Vec::new();
    let mut i: usize = 0;
    while i < p.len()
        invariant
            i <= p@.len(),
            texts(r@) == texts(p@).subrange(0, i as int),
        decreases p@.len() - i,
    {
        let ghost before = r@;
        r.push(p[i].clone());
        assert(texts(r@) =~= texts(before).push(p@[i as int]@));
        assert(texts(p@).subrange(0, i + 1) =~= texts(p@).subrange(0, i as int).push(p@[i as int]@));
        i = i + 1;
    }
    assert(texts(p@).subrange(0, p@.len() as int) =~= texts(p@));
    r
}

impl<S: ?Sized> RespoStatesTree<S> {
    /// An empty tree at the root.
    pub fn new() -> (r: Self)
        ensures
            r@ == empty_view::<S>(Seq::empty()),
            cursors_from(r@, r@.cursor),
    {
        let r = RespoStatesTree { data: None, backup: None, cursor: Vec::new(), branches: Vec::new() };
        assert(texts(r.cursor@) =~= Seq::<Seq<char>>::empty());
        r
    }

    /// get cursor
    pub fn path(&self) -> (r: Vec<String>)
        ensures
            texts(r@) == self@.cursor,
    {
        copy_path(&self.cursor)
    }

    /// A copy of the tree, sharing the data of each branch.
    pub fn copy_tree(&self) -> (r: Self)
        ensures
            r@ == self@,
        decreases self,
    {
        let mut branches: Vec<(String, Box<RespoStatesTree<S>>)> = Vec::new();
        let mut i: usize = 0;
        proof {
            lemma_branches_view(self.branches@, self.branches@.len() as int);
        }
        while i < self.branches.len()
            invariant
                i <= self.branches@.len(),
                branches@.len() == i,
                forall|j: int|
                    0 <= j < i ==> #[trigger] branches@[j].0@ == self.branches@[j].0@ && tree_view(
                        *branches@[j].1,
                    ) == tree_view(*self.branches@[j].1),
            decreases self.branches@.len() - i,
        {
            assert(decreases_to!(self => self.branches@[i as int].1));
            let c = self.branches[i].1.copy_tree();
            branches.push((self.branches[i].0.clone(), Box::new(c)));
            i = i + 1;
        }
        let data = match &self.data {
            Some(d) => Some(d.share()),
            None => None,
        };
        let backup = match &self.backup {
            Some(v) => Some(copy_json(v)),
            None => None,
        };
        let r = RespoStatesTree { data, backup, cursor: copy_path(&self.cursor), branches };
        proof {
            lemma_branches_view(branches@, branches@.len() as int);
            assert(branches_view(branches@, branches@.len() as int) =~= branches_view(
                self.branches@,
                self.branches@.len() as int,
            ));
        }
        r
    }

    /// pick a child branch as new cursor: the branch named `name`, or an empty one
    /// where there is none, its cursor extended by `name`.
    pub fn pick(&self, name: &str) -> (r: Self)
        ensures
            r@.cursor == self@.cursor.push(name@),
            match find_branch(self@.branches, name@) {
                Some(c) => r@.data == c.data && r@.backup == c.backup && r@.branches == c.branches,
                None => r@ == empty_view::<S>(self@.cursor.push(name@)),
            },
            forall|q: Seq<Seq<char>>| #[trigger] state_at(r@, q) == state_at(self@, seq![name@] + q),
            cursors_from(self@, self@.cursor) ==> cursors_from(r@, r@.cursor),
    {
        let mut next_cursor = copy_path(&self.cursor);
        let ghost before = next_cursor@;
        next_cursor.push(name.to_string());
        proof {
            assert(texts(next_cursor@) =~= texts(before).push(name@));
        }
        match branch_position(&self.branches, name) {
            Some(i) => {
                let prev = self.branches[i].1.copy_tree();
                let r = RespoStatesTree {
                    data: prev.data,
                    backup: prev.backup,
                    cursor: next_cursor,
                    branches: prev.branches,
                };
                proof {
                    lemma_branches_view(self.branches@, self.branches@.len() as int);
                    lemma_find_at(self@.branches, name@, i as int);
                    let c = self@.branches[i as int].1;
                    assert(c == tree_view(*self.branches@[i as int].1));
                    assert(r@.data == c.data && r@.backup == c.backup && r@.branches == c.branches);
                    if cursors_from(self@, self@.cursor) {
                        lemma_branches_from(self@.branches, self@.branches.len() as int, self@.cursor);
                        assert(cursors_from(c, self@.cursor.push(name@)));
                    }
                    assert forall|q: Seq<Seq<char>>| #[trigger] state_at(r@, q) == state_at(self@, seq![name@] + q) by {
                        let p = seq![name@] + q;
                        assert(p[0] == name@);
                        assert(p.drop_first() =~= q);
                        assert(state_at(self@, p) == state_at(c, q));
                        if q.len() > 0 {
                            assert(state_at(r@, q) == state_at(c, q));
                        }
                    }
                }
                r
            },
            None => {
                let r = RespoStatesTree { data: None, backup: None, cursor: next_cursor, branches: Vec::new() };
                proof {
                    lemma_branches_view(self.branches@, self.branches@.len() as int);
                    assert(!exists|i: int| first_branch_at(self@.branches, name@, i));
                    assert(r@.branches =~= Seq::<(Seq<char>, StatesView<S>)>::empty());
                    assert(cursors_from(r@, r@.cursor));
                    assert forall|q: Seq<Seq<char>>| #[trigger] state_at(r@, q) == state_at(self@, seq![name@] + q) by {
                        let p = seq![name@] + q;
                        assert(p[0] == name@);
                        lemma_empty_state::<S>(self@.cursor.push(name@), q);
                    }
                }
                r
            },
        }
    }

    /// Sets the data and backup at the path `path[from..]` below this tree, creating
    /// missing branches on the way; every other state stays as it was.
    fn set_path(
        &mut self,
        path: &Vec<String>,
        from: usize,
        data: Option<RespoStateBranch<S>>,
        backup: Option<serde_json::Value>,
    )
        requires
            from <= path@.len(),
        ensures
            final(self)@.cursor == old(self)@.cursor,
            cursors_from(old(self)@, old(self)@.cursor) ==> cursors_from(final(self)@, final(self)@.cursor),
            forall|q: Seq<Seq<char>>|
                #[trigger] state_at(final(self)@, q) == if q == texts(path@).skip(from as int) {
                    (data_view(data), backup)
                } else {
                    state_at(old(self)@, q)
                },
            final(self)@ == set_view(old(self)@, texts(path@).skip(from as int), data_view(data), backup),
        decreases path@.len() - from,
    {
        let ghost t0 = self@;
        let ghost target = texts(path@).skip(from as int);
        let ghost dv = data_view(data);
        let ghost bv = backup;
        if from == path.len() {
            self.data = data;
            self.backup = backup;
            proof {
                assert(self@.branches == t0.branches);
                assert(target =~= Seq::<Seq<char>>::empty());
                assert(self@ == set_view(t0, target, dv, bv));
                assert(target =~= Seq::<Seq<char>>::empty());
                assert forall|q: Seq<Seq<char>>|
                    #[trigger] state_at(self@, q) == if q == target {
                        (data_view(data), backup)
                    } else {
                        state_at(t0, q)
                    } by {
                    if q.len() > 0 {
                        assert(q != target);
                        assert(state_at(self@, q) == state_at(t0, q));
                    } else {
                        assert(q =~= target);
                    }
                }
            }
        } else {
            let ghost name = path@[from as int]@;
            let ghost rest = texts(path@).skip(from + 1);
            proof {
                assert(target[0] == name);
                assert(target.drop_first() =~= rest);
                lemma_branches_view(self.branches@, self.branches@.len() as int);
            }
            match branch_position(&self.branches, path[from].as_str()) {
                Some(i) => {
                    let ghost old_branches = self.branches@;
                    let (k, mut b) = self.branches.remove(i);
                    let ghost b0 = b@;
                    b.set_path(path, from + 1, data, backup);
                    let ghost b1 = b@;
                    self.branches.insert(i, (k, b));
                    proof {
                        assert(self.branches@ =~= old_branches.update(i as int, (k, b)));
                        lemma_branches_view(self.branches@, self.branches@.len() as int);
                        assert(self@.branches =~= t0.branches.update(i as int, (name, b1)));
                        lemma_find_update(t0.branches, i as int, b1);
                        lemma_find_at(t0.branches, name, i as int);
                        let ci = choose|c: int| first_branch_at(t0.branches, target[0], c);
                        lemma_first_branch_unique(t0.branches, name, i as int, ci);
                        assert(b0 == t0.branches[i as int].1);
                        assert(self@ == set_view(t0, target, dv, bv));
                        if cursors_from(t0, t0.cursor) {
                            lemma_branches_from(t0.branches, t0.branches.len() as int, t0.cursor);
                            assert(cursors_from(b0, t0.cursor.push(name)));
                            let nb = self@.branches;
                            assert forall|j: int| 0 <= j < nb.len() implies #[trigger] cursors_from(
                                nb[j].1,
                                t0.cursor.push(nb[j].0),
                            ) by {
                                if j != i {
                                    assert(nb[j] == t0.branches[j]);
                                }
                            }
                            lemma_branches_from(nb, nb.len() as int, t0.cursor);
                        }
                        assert forall|q: Seq<Seq<char>>|
                            #[trigger] state_at(self@, q) == if q == target {
                                (data_view(data), backup)
                            } else {
                                state_at(t0, q)
                            } by {
                            if q.len() == 0 {
                                assert(q != target);
                            } else if q[0] == name {
                                assert(state_at(self@, q) == state_at(b1, q.drop_first()));
                                assert(state_at(t0, q) == state_at(b0, q.drop_first()));
                                assert(state_at(b1, q.drop_first()) == if q.drop_first() == rest {
                                    (data_view(data), backup)
                                } else {
                                    state_at(b0, q.drop_first())
                                });
                                if q.drop_first() == rest {
                                    assert(target =~= seq![name] + rest);
                                    assert(q =~= seq![name] + q.drop_first());
                                } else {
                                    assert(q != target);
                                }
                            } else {
                                assert(q != target);
                                lemma_state_other(self@, t0, name, q);
                            }
                        }
                    }
                },
                None => {
                    let mut b = self.pick(path[from].as_str());
                    let ghost b0 = b@;
                    b.set_path(path, from + 1, data, backup);
                    let ghost b1 = b@;
                    let ghost old_branches = self.branches@;
                    self.branches.push((path[from].clone(), Box::new(b)));
                    proof {
                        lemma_branches_view(self.branches@, self.branches@.len() as int);
                        assert(self@.branches =~= t0.branches.push((name, b1)));
                        lemma_find_push(t0.branches, name, b1);
                        if cursors_from(t0, t0.cursor) {
                            lemma_branches_from(t0.branches, t0.branches.len() as int, t0.cursor);
                            let nb = self@.branches;
                            assert forall|j: int| 0 <= j < nb.len() implies #[trigger] cursors_from(
                                nb[j].1,
                                t0.cursor.push(nb[j].0),
                            ) by {
                                if j < t0.branches.len() {
                                    assert(nb[j] == t0.branches[j]);
                                }
                            }
                            lemma_branches_from(nb, nb.len() as int, t0.cursor);
                        }
                        assert(find_branch(t0.branches, name) is None) by {
                            if exists|j: int| first_branch_at(t0.branches, name, j) {
                                let j = choose|j: int| first_branch_at(t0.branches, name, j);
                                assert(old_branches[j].0@ == name);
                            }
                        }
                        assert(!exists|j: int| first_branch_at(t0.branches, target[0], j));
                        assert(b0 == empty_view::<S>(t0.cursor.push(name)));
                        assert(self@ == set_view(t0, target, dv, bv));
                        assert forall|q: Seq<Seq<char>>|
                            #[trigger] state_at(self@, q) == if q == target {
                                (data_view(data), backup)
                            } else {
                                state_at(t0, q)
                            } by {
                            if q.len() == 0 {
                                assert(q != target);
                            } else if q[0] == name {
                                let r = q.drop_first();
                                assert(state_at(self@, q) == state_at(b1, r));
                                assert(state_at(t0, q) == (Option::<Rc<S>>::None, Option::<serde_json::Value>::None));
                                assert(state_at(b0, r) == state_at(t0, seq![name] + r));
                                assert(seq![name] + r =~= q);
                                if r == rest {
                                    assert(target =~= seq![name] + rest);
                                } else {
                                    assert(q != target);
                                }
                            } else {
                                assert(q != target);
                                lemma_state_other(self@, t0, name, q);
                            }
                        }
                    }
                },
            }
        }
    }

    /// in-place mutation of state tree: the data and backup of the change at its path,
    /// relative to this tree, and every other state as it was.
    pub fn set_in_mut(&mut self, change: RespoUpdateState<S>)
        ensures
            final(self)@.cursor == old(self)@.cursor,
            cursors_from(old(self)@, old(self)@.cursor) ==> cursors_from(final(self)@, final(self)@.cursor),
            forall|q: Seq<Seq<char>>|
                #[trigger] state_at(final(self)@, q) == if q == texts(change.cursor@) {
                    (data_view(change.data), change.backup)
                } else {
                    state_at(old(self)@, q)
                },
            final(self)@ == set_view(old(self)@, texts(change.cursor@), data_view(change.data), change.backup),
    {
        let RespoUpdateState { cursor, data, backup } = change;
        proof {
            assert(texts(cursor@).skip(0) =~= texts(cursor@));
        }
        self.set_path(&cursor, 0, data, backup);
    }
}

} // verus!
