//! The plans of the operations on Faiss indices.

use crate::batches;
use crate::batches::{batch, count_batches};
use crate::faiss_index_service::IndexType;
use crate::native_plan;
use crate::native_plan::{Effect, Failure, Fault, FaultView, NativePlan, Step, StepView};
use vstd::prelude::*;

verus! {

/// The native objects that an operation on a Faiss index holds.
pub enum FaissObject {
    /// The input vectors.
    Vectors,
    /// The reader of a template.
    Reader,
    /// An index.
    Index,
    /// An index that maps ids around another one, which is an object of its own
    /// until the id map owns it.
    IdMap,
    /// The buffer that an index is written to.
    Writer,
}

/// One call of an operation on a Faiss index.
#[derive(Debug, Clone, Copy, PartialEq, Eq, Structural)]
pub enum FaissCall {
    /// Sets the number of threads, where one is given.
    SetThreads { threads: Option<i32> },
    /// Makes an index from its description; fails where there is none.
    MakeIndex,
    /// Fails where the index is not trained.
    CheckTrained,
    /// Makes a reader of the template's bytes; fails where there is none.
    NewReader,
    /// Reads the template; fails where there is no index.
    ReadTemplate,
    FreeReader,
    /// Wraps the index into one that maps ids; fails where there is none.
    NewIdMap,
    /// Makes the id map the owner of the index that it wraps.
    SetOwnFields,
    /// Reserves the storage for the vectors to come.
    ReserveStorage,
    /// Reads the ids of the vectors; fails where Java does not give them.
    AskIds,
    /// Sets the number of threads that Java asks for, where it asks for one; fails
    /// where Java cannot be asked.
    AskThreads,
    /// Sets the parameters that Java gives and a description cannot hold; fails where
    /// Java cannot be asked.
    AskExtraParameters,
    /// Fails where there are no training vectors.
    CheckTrainVectors,
    /// Trains the index unless it is trained.
    Train,
    /// Fails where there is no index that maps ids.
    CheckIdMap,
    /// Adds `count` vectors, from vector `start` on, with their ids.
    AddVectors { start: usize, count: usize },
    /// Releases the input vectors.
    ReleaseVectors,
    /// Makes a buffer to write to; fails where there is none.
    NewWriter,
    /// Writes the index to the buffer.
    WriteToBuffer,
    /// Sends the bytes of the buffer to Java; fails where Java does not take them.
    SendBytes,
    FreeWriter,
    /// Writes the index to the output stream; fails where Faiss says so.
    WriteToStream,
    FreeIndex,
    FreeIdMap,
}

impl Effect for FaissCall {
    type Object = FaissObject;

    open spec fn makes(&self) -> Set<FaissObject> {
        match self {
            FaissCall::MakeIndex => set![FaissObject::Index],
            FaissCall::NewReader => set![FaissObject::Reader],
            FaissCall::ReadTemplate => set![FaissObject::Index],
            FaissCall::NewIdMap => set![FaissObject::IdMap],
            FaissCall::NewWriter => set![FaissObject::Writer],
            _ => set![],
        }
    }

    open spec fn releases(&self) -> Set<FaissObject> {
        match self {
            FaissCall::FreeReader => set![FaissObject::Reader],
            FaissCall::SetOwnFields => set![FaissObject::Index],
            FaissCall::ReleaseVectors => set![FaissObject::Vectors],
            FaissCall::FreeWriter => set![FaissObject::Writer],
            FaissCall::FreeIndex => set![FaissObject::Index],
            FaissCall::FreeIdMap => set![FaissObject::IdMap],
            _ => set![],
        }
    }
}

fn certain(call: FaissCall) -> (step: Step<FaissCall>)
    ensures
        step@ == native_plan::sure(call),
{
    Step { call, failure: None }
}

fn uncertain(call: FaissCall, cleanup: Option<FaissCall>, fault: Fault) -> (step: Step<FaissCall>)
    ensures
        step@ == native_plan::unsure(
            call,
            match cleanup {
                Some(c) => seq![c],
                None => seq![],
            },
            fault@,
        ),
{
    let mut calls: Vec<FaissCall> = Vec::new();
    if let Some(c) = cleanup {
        calls.push(c);
    }
    assert(calls@ =~= match cleanup {
        Some(c) => seq![c],
        None => seq![],
    });
    Step { call, failure: Some(Failure { cleanup: calls, fault }) }
}

/// Making an index from a template, adding vectors to it and sending it to Java.
pub struct TemplatePlan {
    pub kind: IndexType,
    /// How many vectors are added.
    pub num_vectors: usize,
}

impl TemplatePlan {
    /// How many calls add vectors: byte vectors are added in batches, others all
    /// at once.
    pub open spec fn additions(&self) -> nat {
        match self.kind {
            IndexType::Byte => batches::batch_count(self.num_vectors as nat),
            _ => 1,
        }
    }

    /// The call that adds the vectors of part `b`.
    pub open spec fn addition(&self, b: nat) -> FaissCall {
        match self.kind {
            IndexType::Byte => FaissCall::AddVectors {
                start: batches::batch_start(b) as usize,
                count: batches::batch_len(self.num_vectors as nat, b) as usize,
            },
            _ => FaissCall::AddVectors { start: 0, count: self.num_vectors },
        }
    }

    /// Reading the template.
    pub open spec fn opening(&self) -> Seq<StepView<FaissCall>> {
        seq![
            native_plan::unsure(
                FaissCall::NewReader,
                seq![],
                FaultView::Runtime("Failed to create VectorIOReader"@),
            ),
            native_plan::unsure(
                FaissCall::ReadTemplate,
                seq![FaissCall::FreeReader],
                FaultView::Runtime(
                    if self.kind is Binary {
                        "Failed to read binary index from template"@
                    } else {
                        "Failed to read index from template"@
                    },
                ),
            ),
            native_plan::sure(FaissCall::FreeReader),
            native_plan::unsure(FaissCall::AskIds, seq![], FaultView::Java),
            native_plan::unsure(
                FaissCall::NewIdMap,
                seq![FaissCall::FreeIndex],
                FaultView::Runtime(
                    if self.kind is Binary {
                        "Failed to create IndexBinaryIDMap"@
                    } else {
                        "Failed to create IndexIDMap"@
                    },
                ),
            ),
        ]
    }

    /// Sending the index.
    pub open spec fn closing(&self) -> Seq<StepView<FaissCall>> {
        seq![
            native_plan::sure(FaissCall::ReleaseVectors),
            native_plan::unsure(
                FaissCall::NewWriter,
                seq![FaissCall::FreeIdMap],
                FaultView::Runtime("Failed to create VectorIOWriter"@),
            ),
            native_plan::sure(FaissCall::WriteToBuffer),
            native_plan::unsure(FaissCall::SendBytes, seq![], FaultView::Java),
            native_plan::sure(FaissCall::FreeWriter),
            native_plan::sure(FaissCall::FreeIdMap),
        ]
    }
}

impl NativePlan for TemplatePlan {
    type Call = FaissCall;

    open spec fn wf(&self) -> bool {
        true
    }

    open spec fn steps(&self) -> Seq<StepView<FaissCall>> {
        self.opening() + Seq::new(
            self.additions(),
            |b: int| native_plan::sure(self.addition(b as nat)),
        ) + self.closing()
    }

    fn len(&self) -> (n: usize) {
        self.count_additions() + 11
    }

    fn step(&self, p: usize) -> (step: Step<FaissCall>) {
        let additions = self.count_additions();
        if p < 5 {
            self.opening_step(p)
        } else if p < 5 + additions {
            certain(self.addition_call(p - 5))
        } else {
            self.closing_step(p - 5 - additions)
        }
    }
}

impl TemplatePlan {
    fn count_additions(&self) -> (n: usize)
        ensures
            n == self.additions(),
            n <= usize::MAX - 11,
    {
        match self.kind {
            IndexType::Byte => count_batches(self.num_vectors),
            _ => 1,
        }
    }

    fn addition_call(&self, b: usize) -> (call: FaissCall)
        requires
            b < self.additions(),
        ensures
            call == self.addition(b as nat),
    {
        match self.kind {
            IndexType::Byte => {
                let (start, count) = batch(self.num_vectors, b);
                FaissCall::AddVectors { start, count }
            },
            _ => FaissCall::AddVectors { start: 0, count: self.num_vectors },
        }
    }

    fn opening_step(&self, p: usize) -> (step: Step<FaissCall>)
        requires
            p < 5,
        ensures
            step@ == self.opening()[p as int],
    {
        let binary = matches!(self.kind, IndexType::Binary);
        if p == 0 {
            uncertain(
                FaissCall::NewReader,
                None,
                Fault::Runtime("Failed to create VectorIOReader".to_owned()),
            )
        } else if p == 1 {
            uncertain(
                FaissCall::ReadTemplate,
                Some(FaissCall::FreeReader),
                Fault::Runtime(
                    if binary {
                        "Failed to read binary index from template".to_owned()
                    } else {
                        "Failed to read index from template".to_owned()
                    },
                ),
            )
        } else if p == 2 {
            certain(FaissCall::FreeReader)
        } else if p == 3 {
            uncertain(FaissCall::AskIds, None, Fault::Java)
        } else {
            uncertain(
                FaissCall::NewIdMap,
                Some(FaissCall::FreeIndex),
                Fault::Runtime(
                    if binary {
                        "Failed to create IndexBinaryIDMap".to_owned()
                    } else {
                        "Failed to create IndexIDMap".to_owned()
                    },
                ),
            )
        }
    }

    fn closing_step(&self, p: usize) -> (step: Step<FaissCall>)
        requires
            p < 6,
        ensures
            step@ == self.closing()[p as int],
    {
        if p == 0 {
            certain(FaissCall::ReleaseVectors)
        } else if p == 1 {
            uncertain(
                FaissCall::NewWriter,
                Some(FaissCall::FreeIdMap),
                Fault::Runtime("Failed to create VectorIOWriter".to_owned()),
            )
        } else if p == 2 {
            certain(FaissCall::WriteToBuffer)
        } else if p == 3 {
            uncertain(FaissCall::SendBytes, None, Fault::Java)
        } else if p == 4 {
            certain(FaissCall::FreeWriter)
        } else {
            certain(FaissCall::FreeIdMap)
        }
    }

    /// What is held after the first `p` steps.
    spec fn held(&self, p: nat) -> Set<FaissObject> {
        let a = self.additions();
        if p == 0 {
            set![FaissObject::Vectors]
        } else if p == 1 {
            set![FaissObject::Vectors, FaissObject::Reader]
        } else if p == 2 {
            set![FaissObject::Vectors, FaissObject::Reader, FaissObject::Index]
        } else if p <= 4 {
            set![FaissObject::Vectors, FaissObject::Index]
        } else if p <= 5 + a {
            set![FaissObject::Vectors, FaissObject::Index, FaissObject::IdMap]
        } else if p == 6 + a {
            set![FaissObject::Index, FaissObject::IdMap]
        } else if p <= 9 + a {
            set![FaissObject::Index, FaissObject::IdMap, FaissObject::Writer]
        } else if p == 10 + a {
            set![FaissObject::Index, FaissObject::IdMap]
        } else {
            set![FaissObject::Index]
        }
    }

    /// What is held where step `p` fails.
    pub open spec fn held_after_fault(&self, p: nat) -> Set<FaissObject> {
        if (self.steps()[p as int]).call is AskIds {
            set![FaissObject::Vectors, FaissObject::Index]
        } else if p < 5 + self.additions() {
            set![FaissObject::Vectors]
        } else if (self.steps()[p as int]).call is SendBytes {
            set![FaissObject::Index, FaissObject::IdMap, FaissObject::Writer]
        } else {
            set![FaissObject::Index]
        }
    }

    /// Whatever the native calls answer, the reader, the id map and the writer are
    /// released exactly once where they are made. The input vectors are released
    /// too, unless a call fails before the last of them is added. The index that was
    /// read from the template is released only where it cannot be wrapped: the id map
    /// does not own it, and releasing the id map leaves it behind. Where Java does not
    /// give the ids or take the bytes, the plan ends with what it holds at that point.
    pub proof fn lemma_settles(&self)
        ensures
            native_plan::held_at_end(self.steps(), set![FaissObject::Vectors]) == Some(
                set![FaissObject::Index],
            ),
            forall|p: nat|
                p < self.steps().len() && (#[trigger] self.steps()[p as int]).failure is Some
                    ==> native_plan::held_on_failure(self.steps(), p, set![FaissObject::Vectors])
                    == Some(self.held_after_fault(p)),
    {
        let steps = self.steps();
        let held = |p: nat| self.held(p);
        assert forall|p: nat| p < steps.len() implies {
            let call = (#[trigger] steps[p as int]).call;
            &&& call.releases().subset_of(held(p))
            &&& call.makes().disjoint(held(p).difference(call.releases()))
            &&& held(p + 1) == held(p).difference(call.releases()).union(call.makes())
        } by {
            let call = steps[p as int].call;
            assert(held(p + 1) =~= held(p).difference(call.releases()).union(call.makes()));
        }
        native_plan::lemma_ledger_along(steps, held, steps.len());
        assert forall|p: nat|
            p < steps.len() && (#[trigger] steps[p as int]).failure is Some implies native_plan::held_on_failure(
            steps,
            p,
            set![FaissObject::Vectors],
        ) == Some(self.held_after_fault(p)) by {
            let cleanup = (steps[p as int].failure->0).0;
            native_plan::lemma_ledger_on_failure(steps, held, p);
            native_plan::lemma_ledger_few(cleanup, held(p));
            if cleanup.len() == 1 {
                assert(held(p).difference(cleanup[0].releases()).union(set![])
                    =~= self.held_after_fault(p));
            }
            if cleanup.len() == 0 && p > 0 {
                assert(held(p) =~= self.held_after_fault(p));
            }
        }
    }
}

/// Making an empty index, training it and sending it to Java.
pub struct TrainPlan {
    pub kind: IndexType,
}

impl TrainPlan {
    /// The steps before training.
    pub open spec fn opening(&self) -> Seq<StepView<FaissCall>> {
        if self.kind is Binary {
            seq![
                native_plan::unsure(
                    FaissCall::MakeIndex,
                    seq![],
                    FaultView::Runtime("Failed to create binary index from factory"@),
                ),
                native_plan::unsure(FaissCall::AskThreads, seq![], FaultView::Java),
            ]
        } else {
            seq![
                native_plan::unsure(
                    FaissCall::MakeIndex,
                    seq![],
                    FaultView::Runtime("Failed to create index from factory"@),
                ),
                native_plan::unsure(FaissCall::AskThreads, seq![], FaultView::Java),
                native_plan::unsure(FaissCall::AskExtraParameters, seq![], FaultView::Java),
            ]
        }
    }

    /// Training and sending.
    pub open spec fn closing(&self) -> Seq<StepView<FaissCall>> {
        seq![
            native_plan::unsure(
                FaissCall::CheckTrainVectors,
                seq![FaissCall::FreeIndex],
                FaultView::NullPointer("train_vectors_pointer is null"@),
            ),
            native_plan::sure(FaissCall::Train),
            native_plan::unsure(
                FaissCall::NewWriter,
                seq![FaissCall::FreeIndex],
                FaultView::Runtime("Failed to create VectorIOWriter"@),
            ),
            native_plan::sure(FaissCall::WriteToBuffer),
            native_plan::unsure(FaissCall::SendBytes, seq![], FaultView::Java),
            native_plan::sure(FaissCall::FreeWriter),
            native_plan::sure(FaissCall::FreeIndex),
        ]
    }

    fn opening_len(&self) -> (n: usize)
        ensures
            n == self.opening().len(),
            2 <= n <= 3,
    {
        if matches!(self.kind, IndexType::Binary) {
            2
        } else {
            3
        }
    }

    /// What is held after the first `p` steps.
    spec fn held(&self, p: nat) -> Set<FaissObject> {
        let o = self.opening().len();
        if p == 0 || p > o + 6 {
            set![]
        } else if o + 3 <= p <= o + 5 {
            set![FaissObject::Index, FaissObject::Writer]
        } else {
            set![FaissObject::Index]
        }
    }

    /// What is held where step `p` fails.
    pub open spec fn held_after_fault(&self, p: nat) -> Set<FaissObject> {
        match self.steps()[p as int].call {
            FaissCall::AskThreads => set![FaissObject::Index],
            FaissCall::AskExtraParameters => set![FaissObject::Index],
            FaissCall::SendBytes => set![FaissObject::Index, FaissObject::Writer],
            _ => set![],
        }
    }

    /// Whatever the native calls answer, every native object that the plan makes
    /// is released exactly once. Where Java cannot be asked, or does not take the
    /// bytes, the plan ends with what it holds at that point.
    pub proof fn lemma_settles(&self)
        ensures
            native_plan::held_at_end(self.steps(), set![]) == Some(Set::<FaissObject>::empty()),
            forall|p: nat|
                p < self.steps().len() && (#[trigger] self.steps()[p as int]).failure is Some
                    ==> native_plan::held_on_failure(self.steps(), p, set![]) == Some(
                    self.held_after_fault(p),
                ),
    {
        let steps = self.steps();
        let held = |p: nat| self.held(p);
        assert forall|p: nat| p < steps.len() implies {
            let call = (#[trigger] steps[p as int]).call;
            &&& call.releases().subset_of(held(p))
            &&& call.makes().disjoint(held(p).difference(call.releases()))
            &&& held(p + 1) == held(p).difference(call.releases()).union(call.makes())
        } by {
            let call = steps[p as int].call;
            assert(held(p + 1) =~= held(p).difference(call.releases()).union(call.makes()));
        }
        native_plan::lemma_ledger_along(steps, held, steps.len());
        assert forall|p: nat|
            p < steps.len() && (#[trigger] steps[p as int]).failure is Some implies native_plan::held_on_failure(
            steps,
            p,
            set![],
        ) == Some(self.held_after_fault(p)) by {
            let cleanup = (steps[p as int].failure->0).0;
            native_plan::lemma_ledger_on_failure(steps, held, p);
            native_plan::lemma_ledger_few(cleanup, held(p));
            if cleanup.len() == 1 {
                assert(held(p).difference(cleanup[0].releases()).union(set![]) =~= set![]);
            } else {
                assert(held(p) =~= self.held_after_fault(p));
            }
        }
    }
}

impl NativePlan for TrainPlan {
    type Call = FaissCall;

    open spec fn wf(&self) -> bool {
        true
    }

    open spec fn steps(&self) -> Seq<StepView<FaissCall>> {
        self.opening() + self.closing()
    }

    fn len(&self) -> (n: usize) {
        self.opening_len() + 7
    }

    fn step(&self, p: usize) -> (step: Step<FaissCall>) {
        let opening = self.opening_len();
        let binary = matches!(self.kind, IndexType::Binary);
        if p == 0 {
            uncertain(
                FaissCall::MakeIndex,
                None,
                Fault::Runtime(
                    if binary {
                        "Failed to create binary index from factory".to_owned()
                    } else {
                        "Failed to create index from factory".to_owned()
                    },
                ),
            )
        } else if p == 1 {
            uncertain(FaissCall::AskThreads, None, Fault::Java)
        } else if p < opening {
            uncertain(FaissCall::AskExtraParameters, None, Fault::Java)
        } else if p == opening {
            uncertain(
                FaissCall::CheckTrainVectors,
                Some(FaissCall::FreeIndex),
                Fault::NullPointer("train_vectors_pointer is null".to_owned()),
            )
        } else if p == opening + 1 {
            certain(FaissCall::Train)
        } else if p == opening + 2 {
            uncertain(
                FaissCall::NewWriter,
                Some(FaissCall::FreeIndex),
                Fault::Runtime("Failed to create VectorIOWriter".to_owned()),
            )
        } else if p == opening + 3 {
            certain(FaissCall::WriteToBuffer)
        } else if p == opening + 4 {
            uncertain(FaissCall::SendBytes, None, Fault::Java)
        } else if p == opening + 5 {
            certain(FaissCall::FreeWriter)
        } else {
            certain(FaissCall::FreeIndex)
        }
    }
}

/// Making an empty index that maps ids, which is handed to the caller.
pub struct InitPlan {
    pub kind: IndexType,
    /// The number of threads; zero leaves it as it is.
    pub thread_count: i32,
}

impl InitPlan {
    /// The steps that all kinds have.
    pub open spec fn opening(&self) -> Seq<StepView<FaissCall>> {
        seq![
            native_plan::sure(
                FaissCall::SetThreads {
                    threads: if self.thread_count != 0 {
                        Some(self.thread_count)
                    } else {
                        None
                    },
                },
            ),
            native_plan::unsure(
                FaissCall::MakeIndex,
                seq![],
                FaultView::Faiss(
                    if self.kind is Binary {
                        "faiss_index_binary_factory failed"@
                    } else {
                        "faiss_index_factory failed"@
                    },
                ),
            ),
            native_plan::unsure(
                FaissCall::CheckTrained,
                seq![FaissCall::FreeIndex],
                FaultView::NotTrained,
            ),
            native_plan::unsure(
                FaissCall::NewIdMap,
                seq![FaissCall::FreeIndex],
                FaultView::Faiss(
                    if self.kind is Binary {
                        "faiss_IndexBinaryIDMap_new failed"@
                    } else {
                        "faiss_IndexIDMap_new failed"@
                    },
                ),
            ),
            native_plan::sure(FaissCall::SetOwnFields),
        ]
    }

    /// What is held after the first `p` steps.
    spec fn held(&self, p: nat) -> Set<FaissObject> {
        if p <= 1 {
            set![]
        } else if p <= 3 {
            set![FaissObject::Index]
        } else if p == 4 {
            set![FaissObject::Index, FaissObject::IdMap]
        } else {
            set![FaissObject::IdMap]
        }
    }

    /// Whatever the native calls answer, the plan leaves the id map or nothing:
    /// the id map where no call fails, and nothing where one does.
    pub proof fn lemma_settles(&self)
        ensures
            native_plan::held_at_end(self.steps(), set![]) == Some(set![FaissObject::IdMap]),
            forall|p: nat|
                p < self.steps().len() && (#[trigger] self.steps()[p as int]).failure is Some
                    ==> native_plan::held_on_failure(self.steps(), p, set![]) == Some(
                    Set::<FaissObject>::empty(),
                ),
    {
        let steps = self.steps();
        let held = |p: nat| self.held(p);
        assert forall|p: nat| p < steps.len() implies {
            let call = (#[trigger] steps[p as int]).call;
            &&& call.releases().subset_of(held(p))
            &&& call.makes().disjoint(held(p).difference(call.releases()))
            &&& held(p + 1) == held(p).difference(call.releases()).union(call.makes())
        } by {
            let call = steps[p as int].call;
            assert(held(p + 1) =~= held(p).difference(call.releases()).union(call.makes()));
        }
        native_plan::lemma_ledger_along(steps, held, steps.len());
        assert forall|p: nat|
            p < steps.len() && (#[trigger] steps[p as int]).failure is Some implies native_plan::held_on_failure(
            steps,
            p,
            set![],
        ) == Some(Set::<FaissObject>::empty()) by {
            let cleanup = (steps[p as int].failure->0).0;
            native_plan::lemma_ledger_on_failure(steps, held, p);
            native_plan::lemma_ledger_few(cleanup, held(p));
            if cleanup.len() == 1 {
                assert(held(p).difference(cleanup[0].releases()).union(set![]) =~= set![]);
            }
        }
    }
}

impl NativePlan for InitPlan {
    type Call = FaissCall;

    open spec fn wf(&self) -> bool {
        true
    }

    open spec fn steps(&self) -> Seq<StepView<FaissCall>> {
        if self.kind is Binary {
            self.opening()
        } else {
            self.opening().push(native_plan::sure(FaissCall::ReserveStorage))
        }
    }

    fn len(&self) -> (n: usize) {
        if matches!(self.kind, IndexType::Binary) {
            5
        } else {
            6
        }
    }

    fn step(&self, p: usize) -> (step: Step<FaissCall>) {
        let binary = matches!(self.kind, IndexType::Binary);
        if p == 0 {
            certain(
                FaissCall::SetThreads {
                    threads: if self.thread_count != 0 {
                        Some(self.thread_count)
                    } else {
                        None
                    },
                },
            )
        } else if p == 1 {
            uncertain(
                FaissCall::MakeIndex,
                None,
                Fault::Faiss(
                    if binary {
                        "faiss_index_binary_factory failed".to_owned()
                    } else {
                        "faiss_index_factory failed".to_owned()
                    },
                ),
            )
        } else if p == 2 {
            uncertain(FaissCall::CheckTrained, Some(FaissCall::FreeIndex), Fault::NotTrained)
        } else if p == 3 {
            uncertain(
                FaissCall::NewIdMap,
                Some(FaissCall::FreeIndex),
                Fault::Faiss(
                    if binary {
                        "faiss_IndexBinaryIDMap_new failed".to_owned()
                    } else {
                        "faiss_IndexIDMap_new failed".to_owned()
                    },
                ),
            )
        } else if p == 4 {
            certain(FaissCall::SetOwnFields)
        } else {
            certain(FaissCall::ReserveStorage)
        }
    }
}

/// Adding vectors to an index that maps ids.
pub struct InsertPlan {
    pub kind: IndexType,
    /// The number of threads; zero leaves it as it is.
    pub thread_count: i32,
    /// How many vectors are added.
    pub num_vectors: usize,
}

impl InsertPlan {
    /// How many calls add vectors: byte vectors are added in batches, others all
    /// at once.
    pub open spec fn additions(&self) -> nat {
        TemplatePlan { kind: self.kind, num_vectors: self.num_vectors }.additions()
    }

    /// The call that adds the vectors of part `b`.
    pub open spec fn addition(&self, b: nat) -> FaissCall {
        TemplatePlan { kind: self.kind, num_vectors: self.num_vectors }.addition(b)
    }

    /// Every vector is added exactly once and in order: each part starts where the
    /// one before it ends, and the last one ends with the last vector.
    pub proof fn lemma_adds_every_vector(&self, b: nat)
        requires
            b < self.additions(),
        ensures
            self.addition(b) matches FaissCall::AddVectors { start, count } && {
                &&& b == 0 ==> start == 0
                &&& b + 1 < self.additions() ==> (self.addition(
                    b + 1,
                ) matches FaissCall::AddVectors { start: next, .. } && next == start + count)
                &&& b + 1 == self.additions() ==> start + count == self.num_vectors
            },
    {
        if self.kind is Byte {
            batches::lemma_batches_cover(self.num_vectors as nat, b);
            if b + 1 < self.additions() {
                batches::lemma_batches_cover(self.num_vectors as nat, b + 1);
            }
        }
    }
}

impl NativePlan for InsertPlan {
    type Call = FaissCall;

    open spec fn wf(&self) -> bool {
        true
    }

    open spec fn steps(&self) -> Seq<StepView<FaissCall>> {
        seq![
            native_plan::sure(
                FaissCall::SetThreads {
                    threads: if self.thread_count != 0 {
                        Some(self.thread_count)
                    } else {
                        None
                    },
                },
            ),
            native_plan::unsure(
                FaissCall::CheckIdMap,
                seq![],
                FaultView::InvalidArgument("id_map_address pointer is null"@),
            ),
        ] + Seq::new(
            self.additions(),
            |b: int| native_plan::unsure(self.addition(b as nat), seq![], FaultView::Add),
        )
    }

    fn len(&self) -> (n: usize) {
        let parts = TemplatePlan { kind: self.kind, num_vectors: self.num_vectors };
        parts.count_additions() + 2
    }

    fn step(&self, p: usize) -> (step: Step<FaissCall>) {
        if p == 0 {
            certain(
                FaissCall::SetThreads {
                    threads: if self.thread_count != 0 {
                        Some(self.thread_count)
                    } else {
                        None
                    },
                },
            )
        } else if p == 1 {
            uncertain(
                FaissCall::CheckIdMap,
                None,
                Fault::InvalidArgument("id_map_address pointer is null".to_owned()),
            )
        } else {
            let parts = TemplatePlan { kind: self.kind, num_vectors: self.num_vectors };
            uncertain(parts.addition_call(p - 2), None, Fault::Add)
        }
    }
}

/// Writing an index that maps ids to the output stream, and releasing it.
pub struct WritePlan;

impl WritePlan {
    /// Whether the index can be written or not, it is released exactly once.
    pub proof fn lemma_settles(&self)
        ensures
            native_plan::held_at_end(self.steps(), set![FaissObject::IdMap]) == Some(
                Set::<FaissObject>::empty(),
            ),
            native_plan::held_on_failure(self.steps(), 0, set![FaissObject::IdMap]) == Some(
                Set::<FaissObject>::empty(),
            ),
    {
        let steps = self.steps();
        let held = |p: nat|
            if p <= 1 {
                set![FaissObject::IdMap]
            } else {
                Set::<FaissObject>::empty()
            };
        assert forall|p: nat| p < steps.len() implies {
            let call = (#[trigger] steps[p as int]).call;
            &&& call.releases().subset_of(held(p))
            &&& call.makes().disjoint(held(p).difference(call.releases()))
            &&& held(p + 1) == held(p).difference(call.releases()).union(call.makes())
        } by {
            let call = steps[p as int].call;
            assert(held(p + 1) =~= held(p).difference(call.releases()).union(call.makes()));
        }
        native_plan::lemma_ledger_along(steps, held, steps.len());
        let cleanup = (steps[0].failure->0).0;
        native_plan::lemma_ledger_on_failure(steps, held, 0);
        native_plan::lemma_ledger_few(cleanup, held(0));
        assert(held(0).difference(cleanup[0].releases()).union(set![]) =~= set![]);
    }
}

impl NativePlan for WritePlan {
    type Call = FaissCall;

    open spec fn wf(&self) -> bool {
        true
    }

    open spec fn steps(&self) -> Seq<StepView<FaissCall>> {
        seq![
            native_plan::unsure(
                FaissCall::WriteToStream,
                seq![FaissCall::FreeIdMap],
                FaultView::Write("Failed to write index to disk"@),
            ),
            native_plan::sure(FaissCall::FreeIdMap),
        ]
    }

    fn len(&self) -> (n: usize) {
        2
    }

    fn step(&self, p: usize) -> (step: Step<FaissCall>) {
        if p == 0 {
            uncertain(
                FaissCall::WriteToStream,
                Some(FaissCall::FreeIdMap),
                Fault::Write("Failed to write index to disk".to_owned()),
            )
        } else {
            certain(FaissCall::FreeIdMap)
        }
    }
}

/// The step adds vector `v`.
pub open spec fn adds(step: StepView<FaissCall>, v: int) -> bool {
    step.call matches FaissCall::AddVectors { start, count } && start <= v < start + count
}

/// The steps add `n` vectors: each of them once, in their order, and no others.
pub open spec fn adds_each_once(steps: Seq<StepView<FaissCall>>, n: nat) -> bool {
    &&& forall|v: int| #![trigger adds_one(steps, v)] 0 <= v < n ==> adds_one(steps, v)
    &&& forall|p: int, q: int, v: int, w: int|
        #![trigger adds(steps[p], v), adds(steps[q], w)]
        0 <= p < steps.len() && 0 <= q < steps.len() && adds(steps[p], v) && adds(steps[q], w) && v
            <= w ==> p <= q && 0 <= v && w < n
}

/// Some step adds vector `v`.
pub open spec fn adds_one(steps: Seq<StepView<FaissCall>>, v: int) -> bool {
    exists|p: int| 0 <= p < steps.len() && #[trigger] adds(steps[p], v)
}

impl TemplatePlan {
    /// Part `b` has the vectors of one batch, or all of them.
    proof fn lemma_part(&self, b: nat, v: int)
        requires
            b < self.additions(),
        ensures
            self.addition(b) matches FaissCall::AddVectors { start, count } && {
                &&& start <= v < start + count ==> 0 <= v < self.num_vectors && (self.kind is Byte
                    ==> v / 1000 == b)
                &&& self.kind is Byte ==> 0 < count <= 1000
                &&& 0 <= v < self.num_vectors && (self.kind is Byte ==> v / 1000 == b) ==> start
                    <= v < start + count
            },
    {
        if self.kind is Byte {
            batches::lemma_batches_cover(self.num_vectors as nat, b);
        }
    }

    /// The vectors that are added are all that there are: vector after vector, each once,
    /// behind the ids and the id map, before the input vectors are released and the index
    /// is written. Byte vectors are added by at most a thousand at a time, and others all
    /// at once.
    pub proof fn lemma_adds_each_once(&self)
        ensures
            adds_each_once(self.steps(), self.num_vectors as nat),
            forall|p: int|
                0 <= p < self.steps().len() ==> match (#[trigger] self.steps()[p]).call {
                    FaissCall::AddVectors { start, count } => {
                        &&& self.kind is Byte ==> 0 < count <= 1000
                        &&& !(self.kind is Byte) ==> start == 0 && count == self.num_vectors
                    },
                    _ => true,
                },
            exists|ids: int, id_map: int, released: int, written: int|
                {
                    &&& #[trigger] native_plan::made_once(self.steps(), FaissCall::AskIds, ids)
                    &&& #[trigger] native_plan::made_once(self.steps(), FaissCall::NewIdMap, id_map)
                    &&& #[trigger] native_plan::made_once(
                        self.steps(),
                        FaissCall::ReleaseVectors,
                        released,
                    )
                    &&& #[trigger] native_plan::made_once(
                        self.steps(),
                        FaissCall::WriteToBuffer,
                        written,
                    )
                    &&& ids < id_map < released < written
                    &&& forall|p: int|
                        0 <= p < self.steps().len() && (#[trigger] self.steps()[p]).call
                            is AddVectors ==> id_map < p < released
                },
            !(self.kind is Byte) ==> exists|p: int|
                0 <= p < self.steps().len() && (#[trigger] self.steps()[p]).call is AddVectors,
    {
        let steps = self.steps();
        let a = self.additions();
        assert forall|v: int|
            #![trigger adds_one(steps, v)]
            0 <= v < self.num_vectors implies adds_one(steps, v) by {
            let b: nat = if self.kind is Byte {
                (v / 1000) as nat
            } else {
                0
            };
            assert(b < a);
            self.lemma_part(b, v);
            assert(adds(steps[5 + b as int], v));
        }
        assert forall|p: int, q: int, v: int, w: int|
            #![trigger adds(steps[p], v), adds(steps[q], w)]
            0 <= p < steps.len() && 0 <= q < steps.len() && adds(steps[p], v) && adds(steps[q], w)
                && v <= w implies p <= q && 0 <= v && w < self.num_vectors by {
            self.lemma_part((p - 5) as nat, v);
            self.lemma_part((q - 5) as nat, w);
        }
        assert forall|p: int| 0 <= p < steps.len() implies match (#[trigger] steps[p]).call {
            FaissCall::AddVectors { start, count } => {
                &&& self.kind is Byte ==> 0 < count <= 1000
                &&& !(self.kind is Byte) ==> start == 0 && count == self.num_vectors
            },
            _ => true,
        } by {
            if steps[p].call is AddVectors {
                self.lemma_part((p - 5) as nat, 0);
            }
        }
        assert(native_plan::made_once(steps, FaissCall::AskIds, 3));
        assert(native_plan::made_once(steps, FaissCall::NewIdMap, 4));
        assert(native_plan::made_once(steps, FaissCall::ReleaseVectors, 5 + a as int));
        assert(native_plan::made_once(steps, FaissCall::WriteToBuffer, 7 + a as int));
        if !(self.kind is Byte) {
            assert(steps[5].call is AddVectors);
        }
    }

    /// The template is read, wrapped, written and sent once each and in this order, and
    /// what was made for it is released behind its last use. But for this, vectors are
    /// added, and nothing is done.
    pub proof fn lemma_calls(&self)
        ensures
            native_plan::made_in_order(
                self.steps(),
                seq![
                    FaissCall::NewReader,
                    FaissCall::ReadTemplate,
                    FaissCall::FreeReader,
                    FaissCall::AskIds,
                    FaissCall::NewIdMap,
                    FaissCall::ReleaseVectors,
                    FaissCall::NewWriter,
                    FaissCall::WriteToBuffer,
                    FaissCall::SendBytes,
                    FaissCall::FreeWriter,
                    FaissCall::FreeIdMap,
                ],
            ),
            forall|p: int|
                0 <= p < self.steps().len() && !((#[trigger] self.steps()[p]).call is AddVectors)
                    ==> p < 5 || p >= self.steps().len() - 6,
    {
        let steps = self.steps();
        let a = self.additions();
        let calls = seq![
            FaissCall::NewReader,
            FaissCall::ReadTemplate,
            FaissCall::FreeReader,
            FaissCall::AskIds,
            FaissCall::NewIdMap,
            FaissCall::ReleaseVectors,
            FaissCall::NewWriter,
            FaissCall::WriteToBuffer,
            FaissCall::SendBytes,
            FaissCall::FreeWriter,
            FaissCall::FreeIdMap,
        ];
        let at = |i: int|
            if i < 5 {
                i
            } else {
                i + a
            };
        assert(forall|p: int| 5 <= p < 5 + a ==> (#[trigger] steps[p]).call is AddVectors);
        assert forall|i: int| 0 <= i < calls.len() implies native_plan::made_once(
            steps,
            #[trigger] calls[i],
            at(i),
        ) by {
            assert(steps[at(i)].call == calls[i]);
            assert forall|p: int| 0 <= p < steps.len() && (#[trigger] steps[p]).call == calls[i] implies p
                == at(i) by {
                if p < 5 {
                    assert(steps[p].call == calls[p]);
                } else if p >= 5 + a {
                    assert(steps[p].call == calls[p - a]);
                }
            }
        }
        native_plan::lemma_made_in_order(steps, calls, at);
    }

    /// Every call that can fail is named by the fault that the plan then ends with.
    pub proof fn lemma_faults(&self)
        ensures
            forall|p: int|
                0 <= p < self.steps().len() ==> match (#[trigger] self.steps()[p]).call {
                    FaissCall::NewReader => native_plan::faults_with(
                        self.steps(),
                        p,
                        FaultView::Runtime("Failed to create VectorIOReader"@),
                    ),
                    FaissCall::ReadTemplate => native_plan::faults_with(
                        self.steps(),
                        p,
                        FaultView::Runtime(
                            if self.kind is Binary {
                                "Failed to read binary index from template"@
                            } else {
                                "Failed to read index from template"@
                            },
                        ),
                    ),
                    FaissCall::NewIdMap => native_plan::faults_with(
                        self.steps(),
                        p,
                        FaultView::Runtime(
                            if self.kind is Binary {
                                "Failed to create IndexBinaryIDMap"@
                            } else {
                                "Failed to create IndexIDMap"@
                            },
                        ),
                    ),
                    FaissCall::NewWriter => native_plan::faults_with(
                        self.steps(),
                        p,
                        FaultView::Runtime("Failed to create VectorIOWriter"@),
                    ),
                    FaissCall::AskIds | FaissCall::SendBytes => native_plan::faults_with(
                        self.steps(),
                        p,
                        FaultView::Java,
                    ),
                    _ => self.steps()[p].failure is None,
                },
    {
    }
}

impl TrainPlan {
    /// An index is made, its vectors are checked, and it is trained on them, before it is
    /// written; what is written is sent, and the writer and the index are released at the
    /// end. Each of this is done once and in this order, and nothing else is done. Java is
    /// asked for extra parameters of an index unless that is binary.
    pub proof fn lemma_calls(&self)
        ensures
            native_plan::made_in_order(
                self.steps(),
                seq![
                    FaissCall::MakeIndex,
                    FaissCall::AskThreads,
                    FaissCall::CheckTrainVectors,
                    FaissCall::Train,
                    FaissCall::NewWriter,
                    FaissCall::WriteToBuffer,
                    FaissCall::SendBytes,
                    FaissCall::FreeWriter,
                    FaissCall::FreeIndex,
                ],
            ),
            self.kind is Binary ==> self.steps().len() == 9,
            !(self.kind is Binary) ==> {
                &&& self.steps().len() == 10
                &&& native_plan::made_before(
                    self.steps(),
                    FaissCall::AskThreads,
                    FaissCall::AskExtraParameters,
                )
                &&& native_plan::made_before(
                    self.steps(),
                    FaissCall::AskExtraParameters,
                    FaissCall::Train,
                )
            },
    {
        let steps = self.steps();
        let o = self.opening().len() as int;
        let calls = seq![
            FaissCall::MakeIndex,
            FaissCall::AskThreads,
            FaissCall::CheckTrainVectors,
            FaissCall::Train,
            FaissCall::NewWriter,
            FaissCall::WriteToBuffer,
            FaissCall::SendBytes,
            FaissCall::FreeWriter,
            FaissCall::FreeIndex,
        ];
        let at = |i: int|
            if i < 2 {
                i
            } else {
                i + o - 2
            };
        assert forall|i: int| 0 <= i < calls.len() implies native_plan::made_once(
            steps,
            #[trigger] calls[i],
            at(i),
        ) by {
            assert(steps[at(i)].call == calls[i]);
            assert forall|p: int| 0 <= p < steps.len() && (#[trigger] steps[p]).call == calls[i] implies p
                == at(i) by {
                if p < 2 {
                    assert(steps[p].call == calls[p]);
                } else if p >= o {
                    assert(steps[p].call == calls[p - o + 2]);
                }
            }
        }
        native_plan::lemma_made_in_order(steps, calls, at);
        if !(self.kind is Binary) {
            assert(native_plan::made_once(steps, FaissCall::AskThreads, 1));
            assert(native_plan::made_once(steps, FaissCall::AskExtraParameters, 2));
            assert(native_plan::made_once(steps, FaissCall::Train, 4));
        }
    }

    /// Every call that can fail is named by the fault that the plan then ends with.
    pub proof fn lemma_faults(&self)
        ensures
            forall|p: int|
                0 <= p < self.steps().len() ==> match (#[trigger] self.steps()[p]).call {
                    FaissCall::MakeIndex => native_plan::faults_with(
                        self.steps(),
                        p,
                        FaultView::Runtime(
                            if self.kind is Binary {
                                "Failed to create binary index from factory"@
                            } else {
                                "Failed to create index from factory"@
                            },
                        ),
                    ),
                    FaissCall::CheckTrainVectors => native_plan::faults_with(
                        self.steps(),
                        p,
                        FaultView::NullPointer("train_vectors_pointer is null"@),
                    ),
                    FaissCall::NewWriter => native_plan::faults_with(
                        self.steps(),
                        p,
                        FaultView::Runtime("Failed to create VectorIOWriter"@),
                    ),
                    FaissCall::AskThreads
                    | FaissCall::AskExtraParameters
                    | FaissCall::SendBytes => native_plan::faults_with(
                        self.steps(),
                        p,
                        FaultView::Java,
                    ),
                    _ => self.steps()[p].failure is None,
                },
    {
    }
}

impl InitPlan {
    /// An index is made, found to be trained and wrapped by an id map that owns it, once
    /// each and in this order, with the threads that were asked for; storage is reserved
    /// at the end unless the index is binary. Nothing else is done. A call that fails is
    /// named by the fault.
    pub proof fn lemma_calls(&self)
        ensures
            native_plan::made_in_order(
                self.steps(),
                seq![
                    FaissCall::SetThreads {
                        threads: if self.thread_count == 0 {
                            None
                        } else {
                            Some(self.thread_count)
                        },
                    },
                    FaissCall::MakeIndex,
                    FaissCall::CheckTrained,
                    FaissCall::NewIdMap,
                    FaissCall::SetOwnFields,
                ],
            ),
            self.kind is Binary ==> self.steps().len() == 5,
            !(self.kind is Binary) ==> self.steps().len() == 6 && native_plan::made_before(
                self.steps(),
                FaissCall::SetOwnFields,
                FaissCall::ReserveStorage,
            ),
            forall|p: int|
                0 <= p < self.steps().len() ==> match (#[trigger] self.steps()[p]).call {
                    FaissCall::MakeIndex => native_plan::faults_with(
                        self.steps(),
                        p,
                        FaultView::Faiss(
                            if self.kind is Binary {
                                "faiss_index_binary_factory failed"@
                            } else {
                                "faiss_index_factory failed"@
                            },
                        ),
                    ),
                    FaissCall::CheckTrained => native_plan::faults_with(
                        self.steps(),
                        p,
                        FaultView::NotTrained,
                    ),
                    FaissCall::NewIdMap => native_plan::faults_with(
                        self.steps(),
                        p,
                        FaultView::Faiss(
                            if self.kind is Binary {
                                "faiss_IndexBinaryIDMap_new failed"@
                            } else {
                                "faiss_IndexIDMap_new failed"@
                            },
                        ),
                    ),
                    _ => self.steps()[p].failure is None,
                },
    {
        let steps = self.steps();
        let calls = seq![
            FaissCall::SetThreads {
                threads: if self.thread_count == 0 {
                    None
                } else {
                    Some(self.thread_count)
                },
            },
            FaissCall::MakeIndex,
            FaissCall::CheckTrained,
            FaissCall::NewIdMap,
            FaissCall::SetOwnFields,
        ];
        native_plan::lemma_made_in_order(steps, calls, |i: int| i);
        if !(self.kind is Binary) {
            assert(native_plan::made_once(steps, FaissCall::SetOwnFields, 4));
            assert(native_plan::made_once(steps, FaissCall::ReserveStorage, 5));
        }
    }
}

impl InsertPlan {
    /// The vectors that are added are all that there are: vector after vector, each once,
    /// with the threads that were asked for and behind the check that there is an id map.
    /// Byte vectors are added by at most a thousand at a time, and others all at once.
    pub proof fn lemma_adds_each_once(&self)
        ensures
            adds_each_once(self.steps(), self.num_vectors as nat),
            native_plan::made_before(
                self.steps(),
                FaissCall::SetThreads {
                    threads: if self.thread_count == 0 {
                        None
                    } else {
                        Some(self.thread_count)
                    },
                },
                FaissCall::CheckIdMap,
            ),
            self.steps().len() >= 2,
            !(self.kind is Byte) ==> self.steps().len() == 3,
            forall|p: int|
                0 <= p < self.steps().len() ==> match (#[trigger] self.steps()[p]).call {
                    FaissCall::AddVectors { start, count } => {
                        &&& p >= 2
                        &&& self.kind is Byte ==> 0 < count <= 1000
                        &&& !(self.kind is Byte) ==> start == 0 && count == self.num_vectors
                        &&& native_plan::faults_with(self.steps(), p, FaultView::Add)
                        &&& (self.steps()[p].failure->0).0.len() == 0
                    },
                    FaissCall::CheckIdMap => {
                        &&& p == 1
                        &&& native_plan::faults_with(
                            self.steps(),
                            p,
                            FaultView::InvalidArgument("id_map_address pointer is null"@),
                        )
                        &&& (self.steps()[p].failure->0).0.len() == 0
                    },
                    _ => p == 0 && self.steps()[p].failure is None,
                },
    {
        let steps = self.steps();
        let a = self.additions();
        let parts = TemplatePlan { kind: self.kind, num_vectors: self.num_vectors };
        assert forall|v: int|
            #![trigger adds_one(steps, v)]
            0 <= v < self.num_vectors implies adds_one(steps, v) by {
            let b: nat = if self.kind is Byte {
                (v / 1000) as nat
            } else {
                0
            };
            assert(b < a);
            parts.lemma_part(b, v);
            assert(adds(steps[2 + b as int], v));
        }
        assert forall|p: int, q: int, v: int, w: int|
            #![trigger adds(steps[p], v), adds(steps[q], w)]
            0 <= p < steps.len() && 0 <= q < steps.len() && adds(steps[p], v) && adds(steps[q], w)
                && v <= w implies p <= q && 0 <= v && w < self.num_vectors by {
            parts.lemma_part((p - 2) as nat, v);
            parts.lemma_part((q - 2) as nat, w);
        }
        assert forall|p: int| 2 <= p < steps.len() implies ((#[trigger] steps[p]).call
            is AddVectors && (self.kind is Byte ==> 0 < steps[p].call->AddVectors_count <= 1000)) by {
            parts.lemma_part((p - 2) as nat, 0);
        }
        let set_threads = FaissCall::SetThreads {
            threads: if self.thread_count == 0 {
                None
            } else {
                Some(self.thread_count)
            },
        };
        assert(native_plan::made_once(steps, set_threads, 0));
        assert(native_plan::made_once(steps, FaissCall::CheckIdMap, 1));
    }
}

impl WritePlan {
    /// The index is written and then released, once each; nothing else is done. Where it
    /// cannot be written, that is what the fault says.
    pub proof fn lemma_calls(&self)
        ensures
            self.steps().len() == 2,
            native_plan::made_before(self.steps(), FaissCall::WriteToStream, FaissCall::FreeIdMap),
            forall|p: int|
                0 <= p < self.steps().len() ==> if (#[trigger] self.steps()[p]).call
                    is WriteToStream {
                    native_plan::faults_with(
                        self.steps(),
                        p,
                        FaultView::Write("Failed to write index to disk"@),
                    )
                } else {
                    self.steps()[p].failure is None
                },
    {
        assert(native_plan::made_once(self.steps(), FaissCall::WriteToStream, 0));
        assert(native_plan::made_once(self.steps(), FaissCall::FreeIdMap, 1));
    }
}

} // verus!
