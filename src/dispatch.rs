use vstd::prelude::*;
use vstd::utf8::encode_utf8;

use crate::error::DispatchError;
use crate::gio::{accept_response, request_for, wire_text, wire_value, Domain, GIORequest, GIOResponse};
use crate::ident::{cid_binary, cid_binary_of_text, cid_text, cid_text_of_binary, sha3_256, sha3_256_of};
use crate::store::{ipfs_path, steps_of, PathModel, Step, StoreOp, StorePath};

verus! {

/// The one namespace that data queries may name.
pub open spec fn data_namespace() -> Seq<char> {
    "keccak256"@
}

/// The text whose digest names the application.
pub open spec fn app_name() -> Seq<char> {
    "lambada-app"@
}

/// `/app`, where the application tree is kept.
pub open spec fn app_root() -> PathModel {
    seq!["app"@]
}

/// The steps that install the application object `cid` at `/app`.
pub open spec fn app_steps(cid: Seq<char>) -> Seq<Step> {
    seq![Step::Remove(app_root()), Step::Copy(ipfs_path(cid), app_root())]
}

/// A metadata query: the SHA3-256 digest of the text's UTF-8 bytes.
pub fn metadata_request(text: &str) -> (r: GIORequest)
    ensures
        r.domain == Domain::Metadata.spec_code(),
        r.payload@ == wire_text(sha3_256_of(encode_utf8(text@))),
        r.payload@.len() == 66,
{
    let digest = sha3_256(text.as_bytes());
    request_for(Domain::Metadata, digest.as_slice())
}

/// A data query in a namespace: only `keccak256` is taken, and then the
/// payload is the UTF-8 bytes of the data id as they are.
pub fn data_request(namespace: &str, data_id: &str) -> (r: Result<GIORequest, DispatchError>)
    ensures
        r is Err <==> namespace@ != data_namespace(),
        r is Err ==> r->Err_0 == DispatchError::WrongNamespace,
        r is Ok ==> r->Ok_0.domain == Domain::Keccak256Namespace.spec_code() && r->Ok_0.payload@
            == wire_text(encode_utf8(data_id@)),
{
    let given = String::from_str(namespace);
    let wanted = String::from_str("keccak256");
    if !given.eq(&wanted) {
        return Err(DispatchError::WrongNamespace);
    }
    Ok(request_for(Domain::Keccak256Namespace, data_id.as_bytes()))
}

/// A block query for the object whose identifier reads `cid`: the payload
/// is the identifier in canonical binary form.
pub fn ipfs_get_request(cid: &str) -> (r: Result<GIORequest, DispatchError>)
    ensures
        r is Ok <==> cid_binary_of_text(cid@) is Some,
        r is Err ==> r->Err_0 == DispatchError::InvalidCid,
        r is Ok ==> r->Ok_0.domain == Domain::IpfsGetBlock.spec_code() && r->Ok_0.payload@
            == wire_text(cid_binary_of_text(cid@)->Some_0),
{
    match cid_binary(cid) {
        Ok(binary) => Ok(request_for(Domain::IpfsGetBlock, binary.as_slice())),
        Err(_) => Err(DispatchError::InvalidCid),
    }
}

/// Hands content to the compute peer to be kept outside: the payload is the
/// content itself.
pub fn ipfs_put_request(content: &[u8]) -> (r: GIORequest)
    ensures
        r.domain == Domain::ExternalizeState.spec_code(),
        r.payload@ == wire_text(content@),
{
    request_for(Domain::ExternalizeState, content)
}

/// Whether a block is there: always, as the blocks are served on demand.
pub fn ipfs_has() -> (r: bool)
    ensures
        r,
{
    true
}

/// A hint to the compute peer: the payload is the UTF-8 bytes of the text.
pub fn hint_request(what: &str) -> (r: GIORequest)
    ensures
        r.domain == Domain::Hint.spec_code(),
        r.payload@ == wire_text(encode_utf8(what@)),
{
    request_for(Domain::Hint, what.as_bytes())
}

/// The query for the application object: the digest of its name, as a
/// metadata query.
pub fn app_request() -> (r: GIORequest)
    ensures
        r.domain == Domain::Metadata.spec_code(),
        r.payload@ == wire_text(sha3_256_of(encode_utf8(app_name()))),
        r.payload@.len() == 66,
{
    metadata_request("lambada-app")
}

/// The store operations that install the application object `cid`.
pub fn app_ops(cid: &str) -> (r: Vec<StoreOp>)
    ensures
        steps_of(r@) == app_steps(cid@),
{
    let r = vec![
        StoreOp::Remove(StorePath::top("app")),
        StoreOp::Copy(StorePath::nested("ipfs", cid), StorePath::top("app")),
    ];
    assert(steps_of(r@) =~= app_steps(cid@));
    r
}

/// From the peer's answer to `app_request`, whose payload is the binary form
/// of the application's identifier: that identifier as text, which is the
/// answer's body, and the store operations that install it.
pub fn app_plan(resp: &GIOResponse) -> (r: Result<(String, Vec<StoreOp>), DispatchError>)
    ensures
        resp.response_code != 0 ==> r is Err && r->Err_0 == DispatchError::PeerRejection(
            resp.response_code,
        ),
        resp.response_code == 0 && wire_value(resp.response@) is None ==> r is Err && r->Err_0
            == DispatchError::MalformedResponse,
        resp.response_code == 0 && wire_value(resp.response@) is Some && cid_text_of_binary(
            wire_value(resp.response@)->Some_0,
        ) is None ==> r is Err && r->Err_0 == DispatchError::MalformedResponse,
        resp.response_code == 0 && wire_value(resp.response@) is Some && cid_text_of_binary(
            wire_value(resp.response@)->Some_0,
        ) is Some ==> r is Ok,
        r is Ok ==> resp.response_code == 0 && wire_value(resp.response@) is Some
            && cid_text_of_binary(wire_value(resp.response@)->Some_0) is Some && r->Ok_0.0@
            == cid_text_of_binary(wire_value(resp.response@)->Some_0)->Some_0 && steps_of(
            r->Ok_0.1@,
        ) == app_steps(r->Ok_0.0@),
{
    let binary = match accept_response(resp) {
        Ok(b) => b,
        Err(e) => return Err(e),
    };
    match cid_text(binary.as_slice()) {
        Ok(text) => {
            let ops = app_ops(text.as_str());
            Ok((text, ops))
        },
        Err(_) => Err(DispatchError::MalformedResponse),
    }
}

} // verus!
