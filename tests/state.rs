use std::collections::HashMap;

use salsa::config::Config;
use salsa::error::DispatchError;
use salsa::gio::GIOResponse;
use salsa::state::{
    assemble_read, commit_state_outcome, commit_state_request, delete_state_ops, open_state_ops,
    open_state_plan, open_state_request, set_state_ops, state_key_path,
};
use salsa::store::{settle, StoreOp, StoreOutcome, StorePath};

const EMPTY_DIR: &str = "QmUNLLsPACCz1vLxQVkXqqLX5R1X345qqfHbsf67hvA3Nn";

/// A content store held in memory: each path bound to what it holds.
#[derive(Default)]
struct MemStore {
    files: HashMap<String, Vec<u8>>,
    links: HashMap<String, String>,
}

impl MemStore {
    fn apply(&mut self, op: &StoreOp) -> StoreOutcome {
        match op {
            StoreOp::Write(p, data) => {
                self.files.insert(p.text(), data.clone());
                StoreOutcome::Done
            }
            StoreOp::MakeDir(_) => StoreOutcome::Done,
            StoreOp::Remove(p) => {
                let root = p.text();
                let below = format!("{}/", root);
                let before = self.files.len() + self.links.len();
                self.files.retain(|k, _| *k != root && !k.starts_with(&below));
                self.links.retain(|k, _| *k != root && !k.starts_with(&below));
                if before == self.files.len() + self.links.len() {
                    StoreOutcome::Missing
                } else {
                    StoreOutcome::Done
                }
            }
            StoreOp::Copy(src, dst) => {
                let s = src.text();
                match s.strip_prefix("/ipfs/") {
                    Some(cid) => {
                        self.links.insert(dst.text(), cid.to_string());
                        StoreOutcome::Done
                    }
                    None => StoreOutcome::Failed,
                }
            }
            StoreOp::Move(src, dst) => {
                let (s, d) = (src.text(), dst.text());
                let moved: Vec<(String, String)> = self
                    .links
                    .iter()
                    .filter(|(k, _)| **k == s || k.starts_with(&format!("{}/", s)))
                    .map(|(k, v)| (k.clone(), v.clone()))
                    .collect();
                if moved.is_empty() {
                    return StoreOutcome::Missing;
                }
                for (k, v) in moved {
                    self.links.remove(&k);
                    self.links.insert(format!("{}{}", d, &k[s.len()..]), v);
                }
                StoreOutcome::Done
            }
        }
    }

    fn run(&mut self, ops: &[StoreOp]) -> Result<(), DispatchError> {
        for op in ops {
            let outcome = self.apply(op);
            settle(op, outcome)?;
        }
        Ok(())
    }

    fn read(&self, p: &StorePath) -> Vec<Option<Vec<u8>>> {
        match self.files.get(&p.text()) {
            Some(data) => data.chunks(1).map(|c| Some(c.to_vec())).collect(),
            None => vec![None],
        }
    }
}

fn ok_response(text: &str) -> GIOResponse {
    GIOResponse { response_code: 0, response: text.to_string() }
}

#[test]
fn config_defaults() {
    let c = Config::new();
    assert_eq!(c.http_address, "127.0.0.1");
    assert_eq!(c.http_port, 5005);
    assert_eq!(Config::default(), c);
}

#[test]
fn path_text_joins_components() {
    assert_eq!(state_key_path("foo").text(), "/state/foo");
    assert_eq!(StorePath::top("state").text(), "/state");
    assert_eq!(StorePath { parts: vec![] }.text(), "");
}

#[test]
fn set_then_get_returns_the_bytes() {
    let mut store = MemStore::default();
    store.run(&set_state_ops("foo", vec![0xAA, 0xBB])).unwrap();
    let read = assemble_read(&store.read(&state_key_path("foo")));
    assert_eq!(read.bytes, vec![0xAA, 0xBB]);
    assert!(read.is_complete());
}

#[test]
fn set_overwrites_in_full() {
    let mut store = MemStore::default();
    store.run(&set_state_ops("k", vec![1, 2, 3, 4])).unwrap();
    store.run(&set_state_ops("k", vec![9])).unwrap();
    let read = assemble_read(&store.read(&state_key_path("k")));
    assert_eq!(read.bytes, vec![9]);
}

#[test]
fn read_leaves_out_failed_chunks() {
    let chunks = vec![Some(vec![1, 2]), None, Some(vec![3]), None];
    let read = assemble_read(&chunks);
    assert_eq!(read.bytes, vec![1, 2, 3]);
    assert_eq!(read.omitted, 2);
    assert!(!read.is_complete());
    let none = assemble_read(&vec![]);
    assert!(none.bytes.is_empty());
    assert!(none.is_complete());
}

#[test]
fn delete_of_missing_key_succeeds() {
    let mut store = MemStore::default();
    let ops = delete_state_ops("missing-key");
    assert_eq!(ops.len(), 1);
    assert_eq!(store.apply(&ops[0]), StoreOutcome::Missing);
    assert_eq!(store.run(&ops), Ok(()));
}

#[test]
fn settle_tolerates_only_best_effort_failures() {
    let p = StorePath::top("state");
    let copy = StoreOp::Copy(StorePath::nested("ipfs", "x"), p.clone());
    assert_eq!(settle(&copy, StoreOutcome::Missing), Err(DispatchError::StoreNotFound));
    assert_eq!(settle(&copy, StoreOutcome::Failed), Err(DispatchError::StoreFailed));
    assert_eq!(settle(&copy, StoreOutcome::Done), Ok(()));
    assert_eq!(settle(&StoreOp::Remove(p.clone()), StoreOutcome::Missing), Ok(()));
    assert_eq!(settle(&StoreOp::Remove(p.clone()), StoreOutcome::Failed), Err(DispatchError::StoreFailed));
    assert_eq!(settle(&StoreOp::MakeDir(p.clone()), StoreOutcome::Failed), Err(DispatchError::StoreFailed));
    assert_eq!(settle(&StoreOp::MakeDir(p.clone()), StoreOutcome::Missing), Ok(()));
    assert_eq!(settle(&StoreOp::Write(p, vec![1]), StoreOutcome::Missing), Err(DispatchError::StoreNotFound));
}

#[test]
fn open_state_request_has_no_payload() {
    let r = open_state_request();
    assert_eq!(r.domain, 0x20);
    assert_eq!(r.payload, "0x");
}

#[test]
fn open_state_binds_state_and_previous() {
    let mut store = MemStore::default();
    store.run(&open_state_ops("Qm1")).unwrap();
    assert_eq!(store.links.get("/state").map(String::as_str), Some("Qm1"));
    assert_eq!(store.links.get("/state/previous").map(String::as_str), Some("Qm1"));
    assert!(store.links.get("/state-new").is_none());
}

#[test]
fn open_state_twice_is_idempotent() {
    let mut store = MemStore::default();
    store.run(&open_state_ops(EMPTY_DIR)).unwrap();
    let first = store.links.clone();
    store.run(&open_state_ops(EMPTY_DIR)).unwrap();
    assert_eq!(store.links, first);
}

#[test]
fn open_state_ops_are_in_order() {
    let texts: Vec<String> = open_state_ops("Qm1")
        .iter()
        .map(|op| match op {
            StoreOp::Copy(a, b) => format!("cp {} {}", a.text(), b.text()),
            StoreOp::Remove(a) => format!("rm {}", a.text()),
            StoreOp::Move(a, b) => format!("mv {} {}", a.text(), b.text()),
            StoreOp::MakeDir(a) => format!("mkdir {}", a.text()),
            StoreOp::Write(a, _) => format!("write {}", a.text()),
        })
        .collect();
    assert_eq!(
        texts,
        vec![
            "cp /ipfs/Qm1 /state-new",
            "rm /state-new/previous",
            "cp /ipfs/Qm1 /state-new/previous",
            "rm /state",
            "mv /state-new /state",
        ]
    );
}

#[test]
fn commit_reports_binary_cid_and_open_reads_it_back() {
    let req = commit_state_request(EMPTY_DIR).unwrap();
    assert_eq!(req.domain, 0x21);
    assert!(req.payload.starts_with("0x1220"));
    assert_eq!(req.payload.len(), 2 + 2 * 34);
    let ops = open_state_plan(&ok_response(&req.payload)).unwrap();
    match &ops[0] {
        StoreOp::Copy(src, _) => assert_eq!(src.text(), format!("/ipfs/{}", EMPTY_DIR)),
        _ => panic!("first step is no copy"),
    }
}

#[test]
fn commit_refuses_text_that_is_no_cid() {
    assert_eq!(commit_state_request("not-a-cid").unwrap_err(), DispatchError::InvalidCid);
}

#[test]
fn commit_rejected_by_peer() {
    let resp = GIOResponse { response_code: 7, response: "0x6572726f72".to_string() };
    assert_eq!(commit_state_outcome(&resp), Err(DispatchError::PeerRejection(7)));
    assert_eq!(commit_state_outcome(&ok_response("0x")), Ok(()));
}

#[test]
fn open_state_plan_errors() {
    let rejected = GIOResponse { response_code: 2, response: "0x".to_string() };
    assert_eq!(open_state_plan(&rejected).unwrap_err(), DispatchError::PeerRejection(2));
    assert_eq!(open_state_plan(&ok_response("1220")).unwrap_err(), DispatchError::MalformedResponse);
    assert_eq!(open_state_plan(&ok_response("0x")).unwrap_err(), DispatchError::MalformedResponse);
    assert_eq!(open_state_plan(&ok_response("0xffff")).unwrap_err(), DispatchError::MalformedResponse);
}
