use vstd::prelude::*;

use crate::error::DispatchError;
use crate::gio::{
    accept_response, lemma_codec_round_trip, request_for, wire_text, wire_value, Domain, GIORequest,
    GIOResponse,
};
use crate::ident::{cid_binary, cid_binary_of_text, cid_text, cid_text_of_binary};
use crate::store::{
    apart, apply_step, apply_steps, copy_source, graft, ipfs_path, lemma_subtree_graft,
    lemma_subtree_graft_nested, lemma_subtree_without_apart, lemma_subtree_without_nested,
    read_file, settled, steps_of, subtree, under, without, Entry, PathModel, Step, StoreOp,
    StoreOutcome, StorePath, TreeModel,
};

verus! {

/// `/state`, the live state tree.
pub open spec fn state_root() -> PathModel {
    seq!["state"@]
}

/// `/state-new`, where the next state tree is staged.
pub open spec fn staging_root() -> PathModel {
    seq!["state-new"@]
}

/// `previous`, the pointer kept inside a state tree.
pub open spec fn previous_name() -> PathModel {
    seq!["previous"@]
}

/// `/state/<key>`, where one field of the state is kept.
pub open spec fn key_path(key: Seq<char>) -> PathModel {
    seq!["state"@, key]
}

/// The steps that open the state whose identifier reads `cid`: stage the
/// object, point its `previous` at the same object, then swap it in for the
/// live tree.
pub open spec fn open_steps(cid: Seq<char>) -> Seq<Step> {
    seq![
        Step::Copy(ipfs_path(cid), staging_root()),
        Step::Remove(staging_root() + previous_name()),
        Step::Copy(ipfs_path(cid), staging_root() + previous_name()),
        Step::Remove(state_root()),
        Step::Move(staging_root(), state_root()),
    ]
}

/// The steps that store the bytes of one field.
pub open spec fn set_steps(key: Seq<char>, data: Seq<u8>) -> Seq<Step> {
    seq![Step::MakeDir(state_root()), Step::Write(key_path(key), data)]
}

/// The steps that drop one field.
pub open spec fn delete_steps(key: Seq<char>) -> Seq<Step> {
    seq![Step::Remove(key_path(key))]
}

/// The request that asks the compute peer for the agreed state: no payload.
pub fn open_state_request() -> (r: GIORequest)
    ensures
        r.domain == Domain::CurrentStateCid.spec_code(),
        r.payload@ == wire_text(Seq::empty()),
{
    let empty: Vec<u8> = Vec::new();
    request_for(Domain::CurrentStateCid, empty.as_slice())
}

/// The store operations of an open transition for the object whose
/// identifier reads `cid`.
pub fn open_state_ops(cid: &str) -> (r: Vec<StoreOp>)
    ensures
        steps_of(r@) == open_steps(cid@),
{
    let r = vec![
        StoreOp::Copy(StorePath::nested("ipfs", cid), StorePath::top("state-new")),
        StoreOp::Remove(StorePath::nested("state-new", "previous")),
        StoreOp::Copy(StorePath::nested("ipfs", cid), StorePath::nested("state-new", "previous")),
        StoreOp::Remove(StorePath::top("state")),
        StoreOp::Move(StorePath::top("state-new"), StorePath::top("state")),
    ];
    proof {
        reveal_strlit("ipfs");
        assert(seq!["state-new"@] + seq!["previous"@] =~= seq!["state-new"@, "previous"@]);
        assert(steps_of(r@) =~= open_steps(cid@));
    }
    r
}

/// What the live tree holds right after an open transition: the object
/// itself at `/state` and, again, the same object at `/state/previous`.
pub open spec fn opened_tree(cid: Seq<char>) -> TreeModel {
    map![Seq::<Seq<char>>::empty() => Entry::Snapshot(cid), previous_name() => Entry::Snapshot(cid)]
}

/// Once every step of an open transition for `cid` has succeeded, whatever the
/// store held before, `/state` and `/state/previous` are both bound to the
/// object `cid` and nothing else lies beneath `/state`.
pub proof fn lemma_open_state_publishes(t: TreeModel, cid: Seq<char>)
    ensures
        subtree(apply_steps(t, open_steps(cid)), state_root()) == opened_tree(cid),
        apply_steps(t, open_steps(cid))[state_root()] == Entry::Snapshot(cid),
        apply_steps(t, open_steps(cid))[state_root() + previous_name()] == Entry::Snapshot(cid),
        apply_steps(t, open_steps(cid)).contains_key(state_root()),
        apply_steps(t, open_steps(cid)).contains_key(state_root() + previous_name()),
{
    reveal_strlit("ipfs");
    reveal_strlit("state");
    reveal_strlit("state-new");
    let steps = open_steps(cid);
    let sn = staging_root();
    let st = state_root();
    let pv = previous_name();
    let m0 = map![Seq::<Seq<char>>::empty() => Entry::Snapshot(cid)];
    assert(copy_source(t, ipfs_path(cid)) == m0);
    let t1 = graft(t, sn, m0);
    let t2 = without(t1, sn + pv);
    let t3 = graft(t2, sn + pv, m0);
    let t4 = without(t3, st);
    let t5 = graft(without(t4, sn), st, subtree(t4, sn));
    assert(copy_source(t2, ipfs_path(cid)) == m0);
    let r4 = steps.skip(4);
    let r3 = steps.skip(3);
    let r2 = steps.skip(2);
    let r1 = steps.skip(1);
    assert(r4.skip(1) =~= Seq::<Step>::empty());
    assert(r3.skip(1) =~= r4);
    assert(r2.skip(1) =~= r3);
    assert(r1.skip(1) =~= r2);
    assert(r4[0] == steps[4]);
    assert(apply_step(t4, steps[4]) == t5);
    assert(apply_steps(t5, r4.skip(1)) == t5);
    assert(apply_steps(t4, r4) == t5);
    assert(apply_steps(t3, r3) == t5);
    assert(apply_steps(t2, r2) == t5);
    assert(apply_steps(t1, r1) == t5);
    assert(apply_steps(t, steps) == t5);

    lemma_subtree_graft(t, sn, m0);
    lemma_subtree_without_nested(t1, sn, pv);
    assert(without(m0, pv) =~= m0);
    lemma_subtree_graft_nested(t2, sn, pv, m0);
    let m2 = graft(m0, pv, m0);
    assert forall|p: PathModel| #![auto] m2.contains_key(p) <==> opened_tree(cid).contains_key(p) by {
        if under(p, pv) && p.skip(1) == Seq::<Seq<char>>::empty() {
            assert(p =~= pv);
        }
        if p == pv {
            assert(p.skip(1) =~= Seq::<Seq<char>>::empty());
            assert(p.take(1) =~= pv);
        }
    }
    assert(m2 =~= opened_tree(cid));
    assert(apart(sn, st)) by {
        assert(sn[0] != st[0]) by {
            assert(sn[0].len() != st[0].len());
        }
    }
    lemma_subtree_without_apart(t3, sn, st);
    lemma_subtree_graft(without(t4, sn), st, subtree(t4, sn));
    assert(subtree(t5, st) == opened_tree(cid));
    assert(st + Seq::<Seq<char>>::empty() =~= st);
    assert(subtree(t5, st).contains_key(Seq::<Seq<char>>::empty()));
    assert(subtree(t5, st)[Seq::<Seq<char>>::empty()] == Entry::Snapshot(cid));
    assert(t5[st] == Entry::Snapshot(cid));
    assert(subtree(t5, st).contains_key(pv));
    assert(subtree(t5, st)[pv] == Entry::Snapshot(cid));
}

/// Opening the same state twice in a row, with no change on the peer's side
/// in between, leaves the live tree as the first open left it.
pub proof fn lemma_open_state_idempotent(t: TreeModel, cid: Seq<char>)
    ensures
        subtree(apply_steps(apply_steps(t, open_steps(cid)), open_steps(cid)), state_root())
            == subtree(apply_steps(t, open_steps(cid)), state_root()),
{
    lemma_open_state_publishes(t, cid);
    lemma_open_state_publishes(apply_steps(t, open_steps(cid)), cid);
}

/// The store operations of an open transition, from the peer's answer to
/// `open_state_request`: its payload is the binary form of the identifier
/// of the state to open.
pub fn open_state_plan(resp: &GIOResponse) -> (r: Result<Vec<StoreOp>, DispatchError>)
    ensures
        resp.response_code != 0 ==> r == Err::<Vec<StoreOp>, DispatchError>(
            DispatchError::PeerRejection(resp.response_code),
        ),
        resp.response_code == 0 && wire_value(resp.response@) is None ==> r == Err::<
            Vec<StoreOp>,
            DispatchError,
        >(DispatchError::MalformedResponse),
        resp.response_code == 0 && wire_value(resp.response@) is Some && cid_text_of_binary(
            wire_value(resp.response@)->Some_0,
        ) is None ==> r == Err::<Vec<StoreOp>, DispatchError>(DispatchError::MalformedResponse),
        resp.response_code == 0 && wire_value(resp.response@) is Some && cid_text_of_binary(
            wire_value(resp.response@)->Some_0,
        ) is Some ==> r is Ok,
        r is Ok ==> resp.response_code == 0 && wire_value(resp.response@) is Some
            && cid_text_of_binary(wire_value(resp.response@)->Some_0) is Some && steps_of(
            r->Ok_0@,
        ) == open_steps(cid_text_of_binary(wire_value(resp.response@)->Some_0)->Some_0),
{
    let binary = match accept_response(resp) {
        Ok(b) => b,
        Err(e) => return Err(e),
    };
    match cid_text(binary.as_slice()) {
        Ok(text) => Ok(open_state_ops(text.as_str())),
        Err(_) => Err(DispatchError::MalformedResponse),
    }
}

/// The request that reports the live state to the compute peer, from the
/// text of the identifier that the content store gives for `/state`: its
/// payload is that identifier in canonical binary form.
pub fn commit_state_request(state_cid: &str) -> (r: Result<GIORequest, DispatchError>)
    ensures
        r is Ok <==> cid_binary_of_text(state_cid@) is Some,
        r is Err ==> r->Err_0 == DispatchError::InvalidCid,
        r is Ok ==> r->Ok_0.domain == Domain::SetStateCid.spec_code() && r->Ok_0.payload@
            == wire_text(cid_binary_of_text(state_cid@)->Some_0),
{
    match cid_binary(state_cid) {
        Ok(binary) => Ok(request_for(Domain::SetStateCid, binary.as_slice())),
        Err(_) => Err(DispatchError::InvalidCid),
    }
}

/// The identifier that a commit reports reads back, byte for byte, as the
/// canonical binary form of the identifier that `/state` had when asked.
pub proof fn lemma_commit_reports_state(state_cid: Seq<char>)
    requires
        cid_binary_of_text(state_cid) is Some,
    ensures
        wire_value(wire_text(cid_binary_of_text(state_cid)->Some_0)) == cid_binary_of_text(
            state_cid,
        ),
{
    lemma_codec_round_trip(cid_binary_of_text(state_cid)->Some_0);
}

/// Whether the compute peer took the committed state. The store is not
/// touched either way.
pub fn commit_state_outcome(resp: &GIOResponse) -> (r: Result<(), DispatchError>)
    ensures
        r is Ok <==> resp.response_code == 0,
        r is Err ==> r->Err_0 == DispatchError::PeerRejection(resp.response_code),
{
    if resp.response_code != 0 {
        Err(DispatchError::PeerRejection(resp.response_code))
    } else {
        Ok(())
    }
}

/// `/state/<key>`.
pub fn state_key_path(key: &str) -> (r: StorePath)
    ensures
        r@ == key_path(key@),
{
    StorePath::nested("state", key)
}

/// The store operations that set one field to `data`, in full.
pub fn set_state_ops(key: &str, data: Vec<u8>) -> (r: Vec<StoreOp>)
    ensures
        steps_of(r@) == set_steps(key@, data@),
{
    let r = vec![StoreOp::MakeDir(StorePath::top("state")), StoreOp::Write(state_key_path(key), data)];
    assert(steps_of(r@) =~= set_steps(key@, data@));
    r
}

/// The store operations that drop one field.
pub fn delete_state_ops(key: &str) -> (r: Vec<StoreOp>)
    ensures
        steps_of(r@) == delete_steps(key@),
{
    let r = vec![StoreOp::Remove(state_key_path(key))];
    assert(steps_of(r@) =~= delete_steps(key@));
    r
}

/// Setting a field and then reading it gives back exactly the bytes set.
pub proof fn lemma_set_then_get(t: TreeModel, key: Seq<char>, data: Seq<u8>)
    ensures
        read_file(apply_steps(t, set_steps(key, data)), key_path(key)) == Some(data),
{
    let steps = set_steps(key, data);
    let t1 = apply_step(t, steps[0]);
    let t2 = apply_step(t1, steps[1]);
    assert(steps.skip(1).skip(1) =~= Seq::<Step>::empty());
    assert(steps.skip(1)[0] == steps[1]);
    assert(apply_steps(t2, steps.skip(1).skip(1)) == t2);
    assert(apply_steps(t1, steps.skip(1)) == t2);
    assert(apply_steps(t, steps) == t2);
}

/// Dropping a field that was never set is no failure: the store may answer
/// that nothing is there, and the store is left as it was.
pub proof fn lemma_delete_missing(t: TreeModel, key: Seq<char>)
    requires
        forall|p: PathModel| t.contains_key(p) ==> !under(p, key_path(key)),
    ensures
        settled(delete_steps(key)[0], StoreOutcome::Missing) is Ok,
        settled(delete_steps(key)[0], StoreOutcome::Done) is Ok,
        apply_steps(t, delete_steps(key)) == t,
{
    let steps = delete_steps(key);
    assert(steps.skip(1) =~= Seq::<Step>::empty());
    assert(without(t, key_path(key)) =~= t);
    assert(apply_steps(without(t, key_path(key)), steps.skip(1)) == without(t, key_path(key)));
}

/// The bytes of the chunks that were read, in order, the failed ones left out.
pub open spec fn joined(chunks: Seq<Option<Vec<u8>>>) -> Seq<u8>
    decreases chunks.len(),
{
    if chunks.len() == 0 {
        Seq::empty()
    } else {
        joined(chunks.drop_last()) + match chunks.last() {
            Some(v) => v@,
            None => Seq::empty(),
        }
    }
}

/// How many chunks failed to be read.
pub open spec fn failures(chunks: Seq<Option<Vec<u8>>>) -> nat
    decreases chunks.len(),
{
    if chunks.len() == 0 {
        0
    } else {
        failures(chunks.drop_last()) + if chunks.last() is None {
            1nat
        } else {
            0nat
        }
    }
}

/// A field of the state as read: the bytes, and how many chunks of the stream
/// failed and were left out of them.
#[derive(Debug, Clone)]
pub struct ReadResult {
    pub bytes: Vec<u8>,
    pub omitted: usize,
}

impl ReadResult {
    /// No chunk was left out.
    pub fn is_complete(&self) -> (r: bool)
        ensures
            r == (self.omitted == 0),
    {
        self.omitted == 0
    }
}

/// Joins the chunks of a read stream; a chunk that failed (`None`) is left
/// out and counted instead of failing the read.
pub fn assemble_read(chunks: &Vec<Option<Vec<u8>>>) -> (r: ReadResult)
    ensures
        r.bytes@ == joined(chunks@),
        r.omitted == failures(chunks@),
{
    let mut bytes: Vec<u8> = Vec::new();
    let mut omitted: usize = 0;
    let mut i: usize = 0;
    while i < chunks.len()
        invariant
            0 <= i <= chunks@.len(),
            bytes@ == joined(chunks@.take(i as int)),
            omitted == failures(chunks@.take(i as int)),
            omitted <= i,
        decreases chunks@.len() - i,
    {
        proof {
            assert(chunks@.take(i + 1).drop_last() =~= chunks@.take(i as int));
            assert(chunks@.take(i + 1).last() == chunks@[i as int]);
        }
        match &chunks[i] {
            Some(v) => {
                let ghost before = bytes@;
                bytes.extend_from_slice(v.as_slice());
                assert(bytes@ =~= before + v@);
            },
            None => {
                omitted = omitted + 1;
                assert(bytes@ =~= joined(chunks@.take(i as int)) + Seq::<u8>::empty());
            },
        }
        i = i + 1;
    }
    assert(chunks@.take(i as int) =~= chunks@);
    ReadResult { bytes, omitted }
}

} // verus!
