//! The serializing executor: a fixed-size pool of workers, each privately
//! owning one store handle built from the same locator, executing submitted
//! requests one at a time against the shared persisted medium.
//!
//! The pool bounds parallelism; the backend bounds atomicity. Here each
//! submission is one atomic read-modify-write of the medium value, so a
//! request sequence observes a consistent total order, a failed request
//! reports a typed error without poisoning the pool, and two mutations can
//! never leave a byte-level interleaving of their payloads.

use vstd::prelude::*;

use crate::codec::{parse_doc, ser_doc};
use crate::document::{spec_default_doc, DocV, Document};
use crate::errors::LoadError;
use crate::store::{
    load_doc, load_err_matches, load_ok, written, locator_is_relational, Backend, MediumV,
    StoreHandle, StoreMedium,
};

verus! {

/// One operation a caller can submit to the pool.
#[derive(Clone, Debug)]
pub enum Request {
    /// Enumerate the documents behind the handle.
    List,
    /// Read one document by id.
    Get(String),
    /// Initialize the root with a new, empty document.
    New,
    /// Parse a payload and persist it as a new document.
    Create(String),
    /// Parse a payload and replace the persisted document wholesale.
    Update(String),
    /// Remove one document by id.
    Delete(String),
}

/// Spec model of a `Request`.
pub enum ReqV {
    List,
    Get(Seq<char>),
    New,
    Create(Seq<char>),
    Update(Seq<char>),
    Delete(Seq<char>),
}

impl View for Request {
    type V = ReqV;

    open spec fn view(&self) -> ReqV {
        match self {
            Request::List => ReqV::List,
            Request::Get(id) => ReqV::Get(id@),
            Request::New => ReqV::New,
            Request::Create(p) => ReqV::Create(p@),
            Request::Update(p) => ReqV::Update(p@),
            Request::Delete(id) => ReqV::Delete(id@),
        }
    }
}

/// The typed completion a submission comes back with.
#[derive(Clone, Debug)]
pub enum Response {
    /// A list of documents.
    Docs(Vec<Document>),
    /// One document.
    Doc(Document),
    /// A completed operation with nothing to return.
    Done,
    /// A typed failure; the worker goes on serving.
    Failed(LoadError),
}

/// Spec model of a `Response`.
pub enum RespV {
    Docs(Seq<DocV>),
    Doc(DocV),
    Done,
    Failed(LoadError),
}

impl View for Response {
    type V = RespV;

    open spec fn view(&self) -> RespV {
        match self {
            Response::Docs(ds) => RespV::Docs(ds@.map_values(|d: Document| d@)),
            Response::Doc(d) => RespV::Doc(d@),
            Response::Done => RespV::Done,
            Response::Failed(e) => RespV::Failed(*e),
        }
    }
}

/// The whole effect of one submission on the filesystem variant: how the
/// medium moves and which response the caller receives. On the relational
/// variant (`fs` false) every operation fails distinctly with `Unsupported`
/// and the medium never moves.
pub open spec fn submit_post(fs: bool, m0: MediumV, req: ReqV, m1: MediumV, resp: RespV) -> bool {
    if !fs {
        m1 == m0 && (resp matches RespV::Failed(e) && e is Unsupported)
    } else {
        match req {
            ReqV::List => m1 == m0 && (if load_ok(m0) {
                resp matches RespV::Docs(ds) && ds.len() == 1 && ds[0] == load_doc(m0)
            } else {
                resp matches RespV::Failed(e) && load_err_matches(m0, e)
            }),
            ReqV::Get(_) => m1 == m0 && (if load_ok(m0) {
                resp matches RespV::Doc(d) && d == load_doc(m0)
            } else {
                resp matches RespV::Failed(e) && load_err_matches(m0, e)
            }),
            ReqV::New => {
                if m0 is Vacant {
                    m1 == written(spec_default_doc()) && (resp matches RespV::Doc(d) && d
                        == spec_default_doc())
                } else if m0 is Foreign {
                    m1 == m0 && (resp matches RespV::Failed(e) && e is BadStructure)
                } else if load_ok(m0) {
                    m1 == m0 && (resp matches RespV::Doc(d) && d == load_doc(m0))
                } else {
                    m1 == m0 && (resp matches RespV::Failed(e) && e is BadFormat)
                }
            },
            ReqV::Create(p) => mutation_post(m0, p, m1, resp),
            ReqV::Update(p) => mutation_post(m0, p, m1, resp),
            ReqV::Delete(_) => m1 == m0 && (resp matches RespV::Failed(e) && e is Unsupported),
        }
    }
}

/// The effect of one whole-document mutation: a parsed payload replaces the
/// root with exactly its one serialization; anything else changes nothing.
pub open spec fn mutation_post(m0: MediumV, p: Seq<char>, m1: MediumV, resp: RespV) -> bool {
    if parse_doc(p) is Some && !(m0 is Foreign) {
        m1 == written(parse_doc(p).unwrap()) && (resp matches RespV::Doc(d) && d == parse_doc(
            p,
        ).unwrap())
    } else {
        m1 == m0 && (resp matches RespV::Failed(e) && (parse_doc(p) is None <==> e is BadFormat) && (
        parse_doc(p) is Some <==> m0 is Foreign && e is BadStructure))
    }
}

/// The worker pool. Each worker privately owns a handle built from the
/// pool's locator; the persisted medium is the one thing they share, and a
/// submission hands it to exactly one worker for one whole operation.
#[derive(Debug)]
pub struct Executor {
    /// The locator every worker's handle was built from.
    pub locator: String,
    /// The workers' handles, one per worker, fixed at startup.
    pub workers: Vec<StoreHandle>,
    /// The worker the next submission is assigned to, round robin.
    pub next_worker: usize,
    /// The shared persisted medium.
    pub medium: StoreMedium,
    /// How many operations have reached a store backend.
    pub submitted: u64,
}

impl Executor {
    /// A pool is well formed when it has at least one worker, the
    /// round-robin cursor is in range, and every worker's handle is bound
    /// to the pool's locator with the variant that locator selects.
    pub open spec fn wf(&self) -> bool {
        &&& self.workers@.len() >= 1
        &&& self.next_worker < self.workers@.len()
        &&& forall|i: int| 0 <= i < self.workers@.len() ==> (#[trigger] self.workers@[i]).wf()
            && self.workers@[i].locator@ == self.locator@
    }

    /// Whether this pool drives the filesystem variant.
    pub open spec fn is_filesystem(&self) -> bool {
        !locator_is_relational(self.locator@)
    }

    /// Starts a pool of `n_workers` long-lived workers, each owning its own
    /// handle constructed from the same locator.
    pub fn new(locator: &str, n_workers: usize, medium: StoreMedium) -> (e: Executor)
        requires
            n_workers >= 1,
        ensures
            e.wf(),
            e.locator@ == locator@,
            e.medium@ == medium@,
            e.submitted == 0,
            e.next_worker == 0,
            e.workers@.len() == n_workers,
    {
        let mut workers: Vec<StoreHandle> = Vec::new();
        let mut i: usize = 0;
        while i < n_workers
            invariant
                i <= n_workers,
                workers@.len() == i,
                forall|j: int| 0 <= j < i ==> (#[trigger] workers@[j]).wf() && workers@[j].locator@
                    == locator@,
            decreases n_workers - i,
        {
            workers.push(StoreHandle::open(locator));
            i = i + 1;
        }
        Executor {
            locator: locator.to_owned(),
            workers,
            next_worker: 0,
            medium,
            submitted: 0,
        }
    }

    /// Executes one submitted request: assigns it to the next worker, runs
    /// the one corresponding backend call against the medium, and returns
    /// the typed completion. A failure is reported to this caller only; the
    /// pool stays well formed and keeps serving.
    pub fn submit(&mut self, req: Request) -> (resp: Response)
        requires
            old(self).wf(),
            old(self).submitted < u64::MAX,
        ensures
            final(self).wf(),
            final(self).locator == old(self).locator,
            final(self).workers == old(self).workers,
            final(self).submitted == old(self).submitted + 1,
            final(self).next_worker == ((old(self).next_worker + 1) as int % (
            old(self).workers@.len() as int)),
            submit_post(old(self).is_filesystem(), old(self).medium@, req@, final(self).medium@, resp@),
    {
        let wi = self.next_worker;
        let n = self.workers.len();
        self.next_worker = (wi + 1) % n;
        self.submitted = self.submitted + 1;
        let worker = &self.workers[wi];
        match &worker.backend {
            Backend::Filesystem(store) => {
                match req {
                    Request::List => match store.list(&self.medium) {
                        Ok(ds) => Response::Docs(ds),
                        Err(e) => Response::Failed(e),
                    },
                    Request::Get(id) => match store.get(&self.medium, id.as_str()) {
                        Ok(d) => Response::Doc(d),
                        Err(e) => Response::Failed(e),
                    },
                    Request::New => match store.initialize(&mut self.medium) {
                        Ok(d) => Response::Doc(d),
                        Err(e) => Response::Failed(e),
                    },
                    Request::Create(p) => match store.create(&mut self.medium, p.as_str()) {
                        Ok(d) => Response::Doc(d),
                        Err(e) => Response::Failed(e),
                    },
                    Request::Update(p) => match store.update(&mut self.medium, p.as_str()) {
                        Ok(d) => Response::Doc(d),
                        Err(e) => Response::Failed(e),
                    },
                    Request::Delete(id) => match store.delete(&mut self.medium, id.as_str()) {
                        Ok(_) => Response::Done,
                        Err(e) => Response::Failed(e),
                    },
                }
            },
            Backend::Relational(store) => {
                match req {
                    Request::List => match store.list(&self.medium) {
                        Ok(ds) => Response::Docs(ds),
                        Err(e) => Response::Failed(e),
                    },
                    Request::Get(id) => match store.get(&self.medium, id.as_str()) {
                        Ok(d) => Response::Doc(d),
                        Err(e) => Response::Failed(e),
                    },
                    Request::New => match store.initialize(&mut self.medium) {
                        Ok(d) => Response::Doc(d),
                        Err(e) => Response::Failed(e),
                    },
                    Request::Create(p) => match store.create(&mut self.medium, p.as_str()) {
                        Ok(d) => Response::Doc(d),
                        Err(e) => Response::Failed(e),
                    },
                    Request::Update(p) => match store.update(&mut self.medium, p.as_str()) {
                        Ok(d) => Response::Doc(d),
                        Err(e) => Response::Failed(e),
                    },
                    Request::Delete(id) => match store.delete(&mut self.medium, id.as_str()) {
                        Ok(_) => Response::Done,
                        Err(e) => Response::Failed(e),
                    },
                }
            },
        }
    }
}

// ---------------------------------------------------------------------------
// Executor-level laws
// ---------------------------------------------------------------------------
/// A failed submission moves nothing: the medium is exactly what it was, so
/// one failed operation cannot poison the worker or the pool.
pub proof fn lemma_failure_isolated(fs: bool, m0: MediumV, req: ReqV, m1: MediumV, resp: RespV)
    requires
        submit_post(fs, m0, req, m1, resp),
        resp is Failed,
    ensures
        m1 == m0,
{
}

/// Two whole-document mutations executed one after the other — in whichever
/// order the pool ran them — leave the medium holding exactly the
/// serialization of the one that ran last: no byte-level interleaving of
/// the two payloads can ever be persisted.
pub proof fn lemma_mutations_never_interleave(
    m0: MediumV,
    p1: Seq<char>,
    p2: Seq<char>,
    m1: MediumV,
    m2: MediumV,
    r1: RespV,
    r2: RespV,
)
    requires
        parse_doc(p1) is Some,
        parse_doc(p2) is Some,
        !(m0 is Foreign),
        submit_post(true, m0, ReqV::Update(p1), m1, r1),
        submit_post(true, m1, ReqV::Update(p2), m2, r2),
    ensures
        m2 == written(parse_doc(p2).unwrap()),
        m2->Root_0 == ser_doc(parse_doc(p2).unwrap()),
{
}

/// One caller awaiting each submission in turn observes its own requests in
/// submission order: the medium after a read is the medium before it, and
/// the medium after a mutation is a function of the medium before it and
/// that one request alone.
pub proof fn lemma_reads_move_nothing(fs: bool, m0: MediumV, req: ReqV, m1: MediumV, resp: RespV)
    requires
        submit_post(fs, m0, req, m1, resp),
        req is List || req is Get || req is Delete,
    ensures
        m1 == m0,
{
}

} // verus!
