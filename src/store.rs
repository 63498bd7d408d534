use vstd::prelude::*;

use crate::error::DispatchError;

verus! {

/// A path in the content store as its components: `["state", "foo"]` is
/// `/state/foo`.
pub type PathModel = Seq<Seq<char>>;

/// What is bound to one path of the content store.
pub enum Entry {
    /// The tree of an immutable object, named by the text of its identifier.
    Snapshot(Seq<char>),
    /// A directory made in place.
    Folder,
    /// A file with its bytes.
    Blob(Seq<u8>),
}

/// The content store as the entries bound to each path.
pub type TreeModel = Map<PathModel, Entry>;

/// One change to the content store.
pub enum Step {
    /// Binds the destination to what the source holds (`/ipfs/<cid>`: that object).
    Copy(PathModel, PathModel),
    /// Removes a path and all beneath it; nothing there is no failure.
    Remove(PathModel),
    /// Renames a path, and all beneath it, to another.
    Move(PathModel, PathModel),
    /// Makes a directory and its parents; one already there is kept.
    MakeDir(PathModel),
    /// Writes a file in full, replacing what was there.
    Write(PathModel, Seq<u8>),
}

/// `p` is `root` or lies beneath it.
pub open spec fn under(p: PathModel, root: PathModel) -> bool {
    root.len() <= p.len() && p.take(root.len() as int) == root
}

/// The store without `root` and what lies beneath it.
pub open spec fn without(t: TreeModel, root: PathModel) -> TreeModel {
    Map::new(|p: PathModel| t.contains_key(p) && !under(p, root), |p: PathModel| t[p])
}

/// What lies at and beneath `root`, by path relative to it.
pub open spec fn subtree(t: TreeModel, root: PathModel) -> TreeModel {
    Map::new(|r: PathModel| t.contains_key(root + r), |r: PathModel| t[root + r])
}

/// The store with what was at and beneath `dst` replaced by `sub`.
pub open spec fn graft(t: TreeModel, dst: PathModel, sub: TreeModel) -> TreeModel {
    Map::new(
        |p: PathModel|
            (t.contains_key(p) && !under(p, dst)) || (under(p, dst) && sub.contains_key(
                p.skip(dst.len() as int),
            )),
        |p: PathModel|
            if under(p, dst) {
                sub[p.skip(dst.len() as int)]
            } else {
                t[p]
            },
    )
}

/// `/ipfs/<cid>`, the path under which every immutable object can be reached.
pub open spec fn ipfs_path(cid: Seq<char>) -> PathModel {
    seq!["ipfs"@, cid]
}

/// What a copy from `src` brings.
pub open spec fn copy_source(t: TreeModel, src: PathModel) -> TreeModel {
    if src.len() == 2 && src[0] == "ipfs"@ {
        map![Seq::empty() => Entry::Snapshot(src[1])]
    } else {
        subtree(t, src)
    }
}

/// The store after one step that succeeded.
pub open spec fn apply_step(t: TreeModel, s: Step) -> TreeModel {
    match s {
        Step::Copy(src, dst) => graft(t, dst, copy_source(t, src)),
        Step::Remove(p) => without(t, p),
        Step::Move(src, dst) => graft(without(t, src), dst, subtree(t, src)),
        Step::MakeDir(p) => if t.contains_key(p) {
            t
        } else {
            t.insert(p, Entry::Folder)
        },
        Step::Write(p, data) => t.insert(p, Entry::Blob(data)),
    }
}

/// The store after every step of a plan, in order, succeeded.
pub open spec fn apply_steps(t: TreeModel, steps: Seq<Step>) -> TreeModel
    decreases steps.len(),
{
    if steps.len() == 0 {
        t
    } else {
        apply_steps(apply_step(t, steps[0]), steps.skip(1))
    }
}

/// The bytes of the file at a path, if a file is there.
pub open spec fn read_file(t: TreeModel, p: PathModel) -> Option<Seq<u8>> {
    if t.contains_key(p) && t[p] is Blob {
        Some(t[p]->Blob_0)
    } else {
        None
    }
}

/// Two paths that part somewhere: neither lies beneath the other.
pub open spec fn apart(a: PathModel, b: PathModel) -> bool {
    exists|i: int| 0 <= i < a.len() && i < b.len() && a[i] != b[i]
}

proof fn lemma_concat_parts(d: PathModel, r: PathModel)
    ensures
        (d + r).take(d.len() as int) == d,
        (d + r).skip(d.len() as int) == r,
{
    assert((d + r).take(d.len() as int) =~= d);
    assert((d + r).skip(d.len() as int) =~= r);
}

proof fn lemma_under_nested(d: PathModel, q: PathModel, r: PathModel)
    ensures
        under(d + r, d + q) <==> under(r, q),
        under(r, q) ==> (d + r).skip((d + q).len() as int) == r.skip(q.len() as int),
{
    if q.len() <= r.len() {
        assert((d + r).take((d + q).len() as int) =~= d + r.take(q.len() as int));
        if (d + r).take((d + q).len() as int) == d + q {
            lemma_concat_parts(d, r.take(q.len() as int));
            lemma_concat_parts(d, q);
        }
        assert((d + r).skip((d + q).len() as int) =~= r.skip(q.len() as int));
    }
}

proof fn lemma_apart_paths(a: PathModel, b: PathModel, r: PathModel)
    requires
        apart(a, b),
    ensures
        !under(a + r, b),
{
    let i = choose|i: int| 0 <= i < a.len() && i < b.len() && a[i] != b[i];
    if under(a + r, b) {
        assert((a + r).take(b.len() as int)[i] == (a + r)[i]);
    }
}

/// Grafting at a path and then looking there gives what was grafted.
pub proof fn lemma_subtree_graft(t: TreeModel, dst: PathModel, sub: TreeModel)
    ensures
        subtree(graft(t, dst, sub), dst) == sub,
{
    assert forall|r: PathModel| #[trigger] sub.contains_key(r) || subtree(graft(t, dst, sub), dst).contains_key(r)
        implies subtree(graft(t, dst, sub), dst).contains_key(r) && sub.contains_key(r)
        && subtree(graft(t, dst, sub), dst)[r] == sub[r] by {
        lemma_concat_parts(dst, r);
    }
    assert(subtree(graft(t, dst, sub), dst) =~= sub);
}

/// Removing a path below `d` removes, seen from `d`, the same relative path.
pub proof fn lemma_subtree_without_nested(t: TreeModel, d: PathModel, q: PathModel)
    ensures
        subtree(without(t, d + q), d) == without(subtree(t, d), q),
{
    assert forall|r: PathModel| #![auto] subtree(without(t, d + q), d).contains_key(r)
        <==> without(subtree(t, d), q).contains_key(r) by {
        lemma_under_nested(d, q, r);
    }
    assert(subtree(without(t, d + q), d) =~= without(subtree(t, d), q));
}

/// Grafting below `d` grafts, seen from `d`, at the same relative path.
pub proof fn lemma_subtree_graft_nested(t: TreeModel, d: PathModel, q: PathModel, sub: TreeModel)
    ensures
        subtree(graft(t, d + q, sub), d) == graft(subtree(t, d), q, sub),
{
    assert forall|r: PathModel| #![auto] subtree(graft(t, d + q, sub), d).contains_key(r)
        <==> graft(subtree(t, d), q, sub).contains_key(r) by {
        lemma_under_nested(d, q, r);
    }
    assert forall|r: PathModel| #![auto] subtree(graft(t, d + q, sub), d).contains_key(r)
        implies subtree(graft(t, d + q, sub), d)[r] == graft(subtree(t, d), q, sub)[r] by {
        lemma_under_nested(d, q, r);
    }
    assert(subtree(graft(t, d + q, sub), d) =~= graft(subtree(t, d), q, sub));
}

/// Removing a path apart from `d` leaves what lies beneath `d` as it was.
pub proof fn lemma_subtree_without_apart(t: TreeModel, d: PathModel, x: PathModel)
    requires
        apart(d, x),
    ensures
        subtree(without(t, x), d) == subtree(t, d),
{
    assert forall|r: PathModel| #![auto] subtree(without(t, x), d).contains_key(r)
        <==> subtree(t, d).contains_key(r) by {
        lemma_apart_paths(d, x, r);
    }
    assert(subtree(without(t, x), d) =~= subtree(t, d));
}

/// A path of the content store, component by component.
#[derive(Debug, Clone)]
pub struct StorePath {
    pub parts: Vec<String>,
}

impl View for StorePath {
    type V = PathModel;

    open spec fn view(&self) -> PathModel {
        self.parts@.map_values(|s: String| s@)
    }
}

/// Text of a path as the content store takes it: `/` before each component.
pub open spec fn path_text(p: PathModel) -> Seq<char>
    decreases p.len(),
{
    if p.len() == 0 {
        Seq::empty()
    } else {
        path_text(p.drop_last()) + seq!['/'] + p.last()
    }
}

impl StorePath {
    /// A path of one component below the root.
    pub fn top(a: &str) -> (r: StorePath)
        ensures
            r@ == seq![a@],
    {
        let r = StorePath { parts: vec![String::from_str(a)] };
        assert(r@ =~= seq![a@]);
        r
    }

    /// A path of two components below the root.
    pub fn nested(a: &str, b: &str) -> (r: StorePath)
        ensures
            r@ == seq![a@, b@],
    {
        let r = StorePath { parts: vec![String::from_str(a), String::from_str(b)] };
        assert(r@ =~= seq![a@, b@]);
        r
    }

    /// The text of the path, `/a/b` for the components `a` and `b`.
    pub fn text(&self) -> (r: String)
        ensures
            r@ == path_text(self@),
    {
        let mut r = String::new();
        let mut i: usize = 0;
        while i < self.parts.len()
            invariant
                0 <= i <= self.parts@.len(),
                r@ == path_text(self@.take(i as int)),
            decreases self.parts@.len() - i,
        {
            proof {
                reveal_strlit("/");
                assert(self@.take(i + 1).drop_last() =~= self@.take(i as int));
            }
            r.append("/");
            r.append(self.parts[i].as_str());
            proof {
                assert(r@ =~= path_text(self@.take(i as int)) + seq!['/'] + self@[i as int]);
            }
            i = i + 1;
        }
        assert(self@.take(i as int) =~= self@);
        r
    }
}

/// One change to the content store, as it is handed to the store.
#[derive(Debug, Clone)]
pub enum StoreOp {
    /// Copy from the first path to the second.
    Copy(StorePath, StorePath),
    /// Remove a path recursively.
    Remove(StorePath),
    /// Move from the first path to the second.
    Move(StorePath, StorePath),
    /// Make a directory and its parents.
    MakeDir(StorePath),
    /// Write a file, creating it and truncating what was there.
    Write(StorePath, Vec<u8>),
}

impl View for StoreOp {
    type V = Step;

    open spec fn view(&self) -> Step {
        match self {
            StoreOp::Copy(a, b) => Step::Copy(a@, b@),
            StoreOp::Remove(a) => Step::Remove(a@),
            StoreOp::Move(a, b) => Step::Move(a@, b@),
            StoreOp::MakeDir(a) => Step::MakeDir(a@),
            StoreOp::Write(a, d) => Step::Write(a@, d@),
        }
    }
}

/// The steps that a list of operations stands for.
pub open spec fn steps_of(ops: Seq<StoreOp>) -> Seq<Step> {
    ops.map_values(|o: StoreOp| o@)
}

/// How the content store answered one operation.
#[derive(Debug, Clone, Copy, PartialEq, Eq, Structural)]
pub enum StoreOutcome {
    Done,
    /// The path that the operation named was not there.
    Missing,
    /// Any other failure, the store being out of reach included.
    Failed,
}

/// Whether a plan goes on after a step: a path that is not there is no
/// failure for a removal, nor for making a directory that may exist already;
/// every other failure ends the plan.
pub open spec fn settled(s: Step, o: StoreOutcome) -> Result<(), DispatchError> {
    match o {
        StoreOutcome::Done => Ok(()),
        StoreOutcome::Missing => match s {
            Step::Remove(_) | Step::MakeDir(_) => Ok(()),
            _ => Err(DispatchError::StoreNotFound),
        },
        StoreOutcome::Failed => Err(DispatchError::StoreFailed),
    }
}

/// Decides whether the plan goes on after `op` had `outcome`.
pub fn settle(op: &StoreOp, outcome: StoreOutcome) -> (r: Result<(), DispatchError>)
    ensures
        r == settled(op@, outcome),
{
    match outcome {
        StoreOutcome::Done => Ok(()),
        StoreOutcome::Missing => match op {
            StoreOp::Remove(_) | StoreOp::MakeDir(_) => Ok(()),
            _ => Err(DispatchError::StoreNotFound),
        },
        StoreOutcome::Failed => Err(DispatchError::StoreFailed),
    }
}

} // verus!
