//! The plans of the operations on NMSLIB indices.

use crate::native_plan;
use crate::native_plan::{Effect, Failure, Fault, FaultView, NativePlan, Step, StepView};
use crate::text::join;
use vstd::prelude::*;

verus! {

/// The native objects that an operation on an NMSLIB index holds.
pub enum NmslibObject {
    /// The input vectors.
    Vectors,
    /// A space.
    Space,
    /// The data object of a vector.
    Data(nat),
    /// An index.
    Index,
    /// A space and an index over it, in one.
    IndexWrapper,
    /// The stream that an index is written to.
    Ostream,
    /// The stream that an index is read from.
    Istream,
    /// The data object of a query.
    QueryData,
    /// A query.
    Query,
    /// The results of a query.
    Queue,
}

/// One call of an operation on an NMSLIB index.
#[derive(Debug, Clone, Copy, PartialEq, Eq, Structural)]
pub enum NmslibCall {
    /// Makes the space; fails where there is none.
    CreateSpace,
    /// Makes the data object of a vector; fails where there is none.
    CreateObject { vector: usize },
    /// Makes an HNSW index over the first `objects` data objects; fails where
    /// there is none.
    CreateIndex { objects: usize },
    /// Builds the index; fails where NMSLIB says so.
    BuildIndex,
    /// Opens the output stream; fails where there is none.
    NewOstream,
    /// Saves the index to the output stream; fails where NMSLIB says so.
    SaveIndex,
    FreeOstream,
    /// Loads the index from its path; fails where NMSLIB says so.
    LoadIndex,
    /// Sets the query-time parameters; fails where NMSLIB says so.
    SetQueryTimeParams,
    /// Opens the input stream; fails where there is none.
    NewIstream,
    /// Loads the index from the input stream; fails where NMSLIB says so.
    LoadFromStream,
    FreeIstream,
    FreeIndex,
    /// Frees the first `objects` data objects.
    FreeObjects { objects: usize },
    FreeSpace,
    /// Releases the input vectors.
    ReleaseVectors,
    /// Makes a space and an index over it; fails where there is none.
    CreateWrapper,
    /// Loads the wrapped index; fails where NMSLIB says so.
    LoadWrapper,
    FreeWrapper,
    /// Makes the data object of the query; fails where there is none.
    CreateQueryObject,
    /// Makes the query, of the given candidate list size where one is given;
    /// fails where there is none.
    CreateQuery { ef_search: Option<i32> },
    /// Searches the index; fails where NMSLIB says so.
    Search,
    /// Copies the results; fails where there are none.
    CloneResults,
    /// Hands the results to Java; fails where Java does not take them.
    SendResults,
    FreeQueue,
    FreeQuery,
    FreeQueryObject,
}

/// The first `n` data objects.
pub open spec fn data_objects(n: nat) -> Set<NmslibObject> {
    Set::new(|o: NmslibObject| o matches NmslibObject::Data(i) && i < n)
}

impl Effect for NmslibCall {
    type Object = NmslibObject;

    open spec fn makes(&self) -> Set<NmslibObject> {
        match self {
            NmslibCall::CreateSpace => set![NmslibObject::Space],
            NmslibCall::CreateObject { vector } => set![NmslibObject::Data(*vector as nat)],
            NmslibCall::CreateIndex { .. } => set![NmslibObject::Index],
            NmslibCall::NewOstream => set![NmslibObject::Ostream],
            NmslibCall::NewIstream => set![NmslibObject::Istream],
            NmslibCall::CreateWrapper => set![NmslibObject::IndexWrapper],
            NmslibCall::CreateQueryObject => set![NmslibObject::QueryData],
            NmslibCall::CreateQuery { .. } => set![NmslibObject::Query],
            NmslibCall::CloneResults => set![NmslibObject::Queue],
            _ => set![],
        }
    }

    open spec fn releases(&self) -> Set<NmslibObject> {
        match self {
            NmslibCall::FreeSpace => set![NmslibObject::Space],
            NmslibCall::FreeObjects { objects } => data_objects(*objects as nat),
            NmslibCall::FreeIndex => set![NmslibObject::Index],
            NmslibCall::FreeOstream => set![NmslibObject::Ostream],
            NmslibCall::FreeIstream => set![NmslibObject::Istream],
            NmslibCall::ReleaseVectors => set![NmslibObject::Vectors],
            NmslibCall::FreeWrapper => set![NmslibObject::IndexWrapper],
            NmslibCall::FreeQueue => set![NmslibObject::Queue],
            NmslibCall::FreeQuery => set![NmslibObject::Query],
            NmslibCall::FreeQueryObject => set![NmslibObject::QueryData],
            _ => set![],
        }
    }
}

fn certain(call: NmslibCall) -> (step: Step<NmslibCall>)
    ensures
        step@ == native_plan::sure(call),
{
    Step { call, failure: None }
}

fn uncertain(call: NmslibCall, cleanup: Vec<NmslibCall>, text: String) -> (step: Step<NmslibCall>)
    ensures
        step@ == native_plan::unsure(call, cleanup@, FaultView::Runtime(text@)),
{
    Step { call, failure: Some(Failure { cleanup, fault: Fault::Runtime(text) }) }
}

/// Building an index over the given vectors and saving it to the output stream.
pub struct CreatePlan {
    pub num_vectors: usize,
    pub space_type: String,
}

impl CreatePlan {
    /// The cleanup once `objects` data objects are made.
    pub open spec fn without_index(objects: usize) -> Seq<NmslibCall> {
        seq![NmslibCall::FreeObjects { objects }, NmslibCall::FreeSpace]
    }

    /// The cleanup once the index is made.
    pub open spec fn with_index(objects: usize) -> Seq<NmslibCall> {
        seq![NmslibCall::FreeIndex, NmslibCall::FreeObjects { objects }, NmslibCall::FreeSpace]
    }

    /// Making the space.
    pub open spec fn opening(&self) -> Seq<StepView<NmslibCall>> {
        seq![
            native_plan::unsure(
                NmslibCall::CreateSpace,
                seq![],
                FaultView::Runtime("Failed to create space: "@ + self.space_type@),
            ),
        ]
    }

    /// Making the data object of vector `i`.
    pub open spec fn object_step(i: int) -> StepView<NmslibCall> {
        native_plan::unsure(
            NmslibCall::CreateObject { vector: i as usize },
            Self::without_index(i as usize),
            FaultView::Runtime("Failed to create NMSLIB object"@),
        )
    }

    /// Building and saving the index, and releasing everything.
    pub open spec fn closing(&self) -> Seq<StepView<NmslibCall>> {
        let n = self.num_vectors;
        seq![
            native_plan::unsure(
                NmslibCall::CreateIndex { objects: n },
                Self::without_index(n),
                FaultView::Runtime("Failed to create HNSW index"@),
            ),
            native_plan::unsure(
                NmslibCall::BuildIndex,
                Self::with_index(n),
                FaultView::Runtime("Failed to build index"@),
            ),
            native_plan::unsure(
                NmslibCall::NewOstream,
                Self::with_index(n),
                FaultView::Runtime("Failed to create ostream for NMSLIB save"@),
            ),
            native_plan::unsure(
                NmslibCall::SaveIndex,
                seq![NmslibCall::FreeOstream] + Self::with_index(n),
                FaultView::Runtime("Failed to save index with stream"@),
            ),
            native_plan::sure(NmslibCall::FreeOstream),
            native_plan::sure(NmslibCall::FreeIndex),
            native_plan::sure(NmslibCall::FreeObjects { objects: n }),
            native_plan::sure(NmslibCall::FreeSpace),
            native_plan::sure(NmslibCall::ReleaseVectors),
        ]
    }

    fn free_without_index(objects: usize) -> (calls: Vec<NmslibCall>)
        ensures
            calls@ == Self::without_index(objects),
    {
        let mut calls: Vec<NmslibCall> = Vec::new();
        calls.push(NmslibCall::FreeObjects { objects });
        calls.push(NmslibCall::FreeSpace);
        assert(calls@ =~= Self::without_index(objects));
        calls
    }

    fn free_with_index(objects: usize) -> (calls: Vec<NmslibCall>)
        ensures
            calls@ == Self::with_index(objects),
    {
        let mut calls: Vec<NmslibCall> = Vec::new();
        calls.push(NmslibCall::FreeIndex);
        calls.push(NmslibCall::FreeObjects { objects });
        calls.push(NmslibCall::FreeSpace);
        assert(calls@ =~= Self::with_index(objects));
        calls
    }

    fn closing_step(&self, p: usize) -> (step: Step<NmslibCall>)
        requires
            p < 9,
        ensures
            step@ == self.closing()[p as int],
    {
        let n = self.num_vectors;
        if p == 0 {
            uncertain(
                NmslibCall::CreateIndex { objects: n },
                Self::free_without_index(n),
                "Failed to create HNSW index".to_owned(),
            )
        } else if p == 1 {
            uncertain(
                NmslibCall::BuildIndex,
                Self::free_with_index(n),
                "Failed to build index".to_owned(),
            )
        } else if p == 2 {
            uncertain(
                NmslibCall::NewOstream,
                Self::free_with_index(n),
                "Failed to create ostream for NMSLIB save".to_owned(),
            )
        } else if p == 3 {
            let mut calls: Vec<NmslibCall> = Vec::new();
            calls.push(NmslibCall::FreeOstream);
            calls.push(NmslibCall::FreeIndex);
            calls.push(NmslibCall::FreeObjects { objects: n });
            calls.push(NmslibCall::FreeSpace);
            assert(calls@ =~= seq![NmslibCall::FreeOstream] + Self::with_index(n));
            uncertain(
                NmslibCall::SaveIndex,
                calls,
                "Failed to save index with stream".to_owned(),
            )
        } else if p == 4 {
            certain(NmslibCall::FreeOstream)
        } else if p == 5 {
            certain(NmslibCall::FreeIndex)
        } else if p == 6 {
            certain(NmslibCall::FreeObjects { objects: n })
        } else if p == 7 {
            certain(NmslibCall::FreeSpace)
        } else {
            certain(NmslibCall::ReleaseVectors)
        }
    }
}

impl NativePlan for CreatePlan {
    type Call = NmslibCall;

    open spec fn steps(&self) -> Seq<StepView<NmslibCall>> {
        self.opening() + Seq::new(self.num_vectors as nat, |i: int| Self::object_step(i))
            + self.closing()
    }

    open spec fn wf(&self) -> bool {
        self.num_vectors <= usize::MAX - 10
    }

    fn len(&self) -> (n: usize) {
        self.num_vectors + 10
    }

    fn step(&self, p: usize) -> (step: Step<NmslibCall>) {
        if p == 0 {
            uncertain(
                NmslibCall::CreateSpace,
                Vec::new(),
                join("Failed to create space: ", self.space_type.as_str()),
            )
        } else if p <= self.num_vectors {
            uncertain(
                NmslibCall::CreateObject { vector: p - 1 },
                Self::free_without_index(p - 1),
                "Failed to create NMSLIB object".to_owned(),
            )
        } else {
            self.closing_step(p - 1 - self.num_vectors)
        }
    }
}

impl CreatePlan {
    /// What is held after the first `p` steps.
    spec fn held(&self, p: nat) -> Set<NmslibObject> {
        let n = self.num_vectors as nat;
        let space = set![NmslibObject::Vectors, NmslibObject::Space];
        if p == 0 {
            set![NmslibObject::Vectors]
        } else if p <= n + 1 {
            space.union(data_objects((p - 1) as nat))
        } else if p <= n + 3 {
            space.union(data_objects(n)).insert(NmslibObject::Index)
        } else if p <= n + 5 {
            space.union(data_objects(n)).insert(NmslibObject::Index).insert(NmslibObject::Ostream)
        } else if p == n + 6 {
            space.union(data_objects(n)).insert(NmslibObject::Index)
        } else if p == n + 7 {
            space.union(data_objects(n))
        } else if p == n + 8 {
            space
        } else if p == n + 9 {
            set![NmslibObject::Vectors]
        } else {
            set![]
        }
    }

    proof fn lemma_steps_lead(&self)
        requires
            self.wf(),
        ensures
            native_plan::steps_lead(self.steps(), |p: nat| self.held(p)),
    {
        let steps = self.steps();
        let held = |p: nat| self.held(p);
        assert forall|p: nat| p < steps.len() implies {
            let call = (#[trigger] steps[p as int]).call;
            &&& call.releases().subset_of(held(p))
            &&& call.makes().disjoint(held(p).difference(call.releases()))
            &&& held(p + 1) == held(p).difference(call.releases()).union(call.makes())
        } by {
            let call = steps[p as int].call;
            assert(held(p + 1) =~= held(p).difference(call.releases()).union(call.makes()));
        }
    }

    proof fn lemma_failure(&self, p: nat)
        requires
            self.wf(),
            p < self.steps().len(),
            self.steps()[p as int].failure is Some,
        ensures
            native_plan::held_on_failure(self.steps(), p, set![NmslibObject::Vectors]) == Some(
                set![NmslibObject::Vectors],
            ),
    {
        let n = self.num_vectors as nat;
        let steps = self.steps();
        let held = |p: nat| self.held(p);
        let cleanup = (steps[p as int].failure->0).0;
        let done = set![NmslibObject::Vectors];
        let space = set![NmslibObject::Vectors, NmslibObject::Space];
        self.lemma_steps_lead();
        native_plan::lemma_ledger_on_failure(steps, held, p);
        native_plan::lemma_ledger_few(cleanup, held(p));
        let bare = |s: Set<NmslibObject>, c: NmslibCall|
            s.difference(c.releases()).union(Set::<NmslibObject>::empty());
        if p == 0 {
        } else if p <= n + 1 {
            let m = (p - 1) as usize;
            assert(bare(held(p), NmslibCall::FreeObjects { objects: m }) =~= space);
            assert(bare(space, NmslibCall::FreeSpace) =~= done);
        } else {
            let full = space.union(data_objects(n));
            if p == n + 4 {
                assert(bare(held(p), NmslibCall::FreeOstream) =~= full.insert(NmslibObject::Index));
            }
            assert(bare(full.insert(NmslibObject::Index), NmslibCall::FreeIndex) =~= full);
            assert(bare(full, NmslibCall::FreeObjects { objects: n as usize }) =~= space);
            assert(bare(space, NmslibCall::FreeSpace) =~= done);
        }
    }

    /// Whatever the native calls answer, every native object that the plan makes
    /// is released exactly once. The input vectors are released where no call
    /// fails, and kept where one does.
    pub proof fn lemma_settles(&self)
        requires
            self.wf(),
        ensures
            native_plan::held_at_end(self.steps(), set![NmslibObject::Vectors]) == Some(
                Set::<NmslibObject>::empty(),
            ),
            forall|p: nat|
                p < self.steps().len() && (#[trigger] self.steps()[p as int]).failure is Some
                    ==> native_plan::held_on_failure(self.steps(), p, set![NmslibObject::Vectors])
                    == Some(set![NmslibObject::Vectors]),
    {
        self.lemma_steps_lead();
        native_plan::lemma_ledger_along(
            self.steps(),
            |p: nat| self.held(p),
            self.steps().len(),
        );
        assert forall|p: nat|
            p < self.steps().len() && (#[trigger] self.steps()[p as int]).failure is Some implies native_plan::held_on_failure(
            self.steps(),
            p,
            set![NmslibObject::Vectors],
        ) == Some(set![NmslibObject::Vectors]) by {
            self.lemma_failure(p);
        }
    }
}

/// Where an index is loaded from.
pub enum LoadSource {
    /// A file.
    Path(String),
    /// An input stream of Java.
    Stream,
}

fn one_call(a: NmslibCall) -> (calls: Vec<NmslibCall>)
    ensures
        calls@ == seq![a],
{
    let mut calls: Vec<NmslibCall> = Vec::new();
    calls.push(a);
    assert(calls@ =~= seq![a]);
    calls
}

fn two_calls(a: NmslibCall, b: NmslibCall) -> (calls: Vec<NmslibCall>)
    ensures
        calls@ == seq![a, b],
{
    let mut calls: Vec<NmslibCall> = Vec::new();
    calls.push(a);
    calls.push(b);
    assert(calls@ =~= seq![a, b]);
    calls
}

fn three_calls(a: NmslibCall, b: NmslibCall, c: NmslibCall) -> (calls: Vec<NmslibCall>)
    ensures
        calls@ == seq![a, b, c],
{
    let mut calls: Vec<NmslibCall> = Vec::new();
    calls.push(a);
    calls.push(b);
    calls.push(c);
    assert(calls@ =~= seq![a, b, c]);
    calls
}

/// Making a space and an index and loading the index, both of which are handed to
/// the caller.
pub struct LoadPlan {
    pub space_type: String,
    pub source: LoadSource,
}

impl LoadPlan {
    /// The cleanup once the index is made.
    pub open spec fn give_up() -> Seq<NmslibCall> {
        seq![NmslibCall::FreeIndex, NmslibCall::FreeSpace]
    }

    /// Making the space and the index.
    pub open spec fn opening(&self) -> Seq<StepView<NmslibCall>> {
        seq![
            native_plan::unsure(
                NmslibCall::CreateSpace,
                seq![],
                FaultView::Runtime("Failed to create space: "@ + self.space_type@),
            ),
            native_plan::unsure(
                NmslibCall::CreateIndex { objects: 0 },
                seq![NmslibCall::FreeSpace],
                FaultView::Runtime("Failed to create HNSW index"@),
            ),
        ]
    }

    /// Setting the query-time parameters.
    pub open spec fn params_step() -> StepView<NmslibCall> {
        native_plan::unsure(
            NmslibCall::SetQueryTimeParams,
            Self::give_up(),
            FaultView::Runtime("Failed to set query time params"@),
        )
    }

    /// Loading: a file before the query-time parameters are set, a stream after.
    pub open spec fn loading(&self) -> Seq<StepView<NmslibCall>> {
        match self.source {
            LoadSource::Path(path) => seq![
                native_plan::unsure(
                    NmslibCall::LoadIndex,
                    Self::give_up(),
                    FaultView::Runtime("Failed to load index from: "@ + path@),
                ),
                Self::params_step(),
            ],
            LoadSource::Stream => seq![
                Self::params_step(),
                native_plan::unsure(
                    NmslibCall::NewIstream,
                    Self::give_up(),
                    FaultView::Runtime("Failed to create istream for NMSLIB load"@),
                ),
                native_plan::unsure(
                    NmslibCall::LoadFromStream,
                    seq![NmslibCall::FreeIstream, NmslibCall::FreeIndex, NmslibCall::FreeSpace],
                    FaultView::Runtime("Failed to load index with stream"@),
                ),
                native_plan::sure(NmslibCall::FreeIstream),
            ],
        }
    }

    /// What is held after the first `p` steps.
    spec fn held(&self, p: nat) -> Set<NmslibObject> {
        if p == 0 {
            set![]
        } else if p == 1 {
            set![NmslibObject::Space]
        } else if self.source is Stream && (p == 4 || p == 5) {
            set![NmslibObject::Space, NmslibObject::Index, NmslibObject::Istream]
        } else {
            set![NmslibObject::Space, NmslibObject::Index]
        }
    }

    /// Whatever the native calls answer, the plan leaves a space with its index or
    /// nothing: both where no call fails, and nothing where one does.
    pub proof fn lemma_settles(&self)
        ensures
            native_plan::held_at_end(self.steps(), set![]) == Some(
                set![NmslibObject::Space, NmslibObject::Index],
            ),
            forall|p: nat|
                p < self.steps().len() && (#[trigger] self.steps()[p as int]).failure is Some
                    ==> native_plan::held_on_failure(self.steps(), p, set![]) == Some(
                    Set::<NmslibObject>::empty(),
                ),
    {
        let steps = self.steps();
        let held = |p: nat| self.held(p);
        assert forall|p: nat| p < steps.len() implies {
            let call = (#[trigger] steps[p as int]).call;
            &&& call.releases().subset_of(held(p))
            &&& call.makes().disjoint(held(p).difference(call.releases()))
            &&& held(p + 1) == held(p).difference(call.releases()).union(call.makes())
        } by {
            let call = steps[p as int].call;
            assert(held(p + 1) =~= held(p).difference(call.releases()).union(call.makes()));
        }
        native_plan::lemma_ledger_along(steps, held, steps.len());
        let none = Set::<NmslibObject>::empty();
        let space = set![NmslibObject::Space];
        let both = set![NmslibObject::Space, NmslibObject::Index];
        let all = set![NmslibObject::Space, NmslibObject::Index, NmslibObject::Istream];
        assert(all.difference(NmslibCall::FreeIstream.releases()).union(none) =~= both);
        assert(both.difference(NmslibCall::FreeIndex.releases()).union(none) =~= space);
        assert(space.difference(NmslibCall::FreeSpace.releases()).union(none) =~= none);
        assert forall|p: nat|
            p < steps.len() && (#[trigger] steps[p as int]).failure is Some implies native_plan::held_on_failure(
            steps,
            p,
            set![],
        ) == Some(none) by {
            let cleanup = (steps[p as int].failure->0).0;
            native_plan::lemma_ledger_on_failure(steps, held, p);
            native_plan::lemma_ledger_few(cleanup, held(p));
        }
    }
}

impl NativePlan for LoadPlan {
    type Call = NmslibCall;

    open spec fn steps(&self) -> Seq<StepView<NmslibCall>> {
        self.opening() + self.loading()
    }

    open spec fn wf(&self) -> bool {
        true
    }

    fn len(&self) -> (n: usize) {
        match self.source {
            LoadSource::Path(_) => 4,
            LoadSource::Stream => 6,
        }
    }

    fn step(&self, p: usize) -> (step: Step<NmslibCall>) {
        if p == 0 {
            return uncertain(
                NmslibCall::CreateSpace,
                Vec::new(),
                join("Failed to create space: ", self.space_type.as_str()),
            );
        }
        if p == 1 {
            return uncertain(
                NmslibCall::CreateIndex { objects: 0 },
                one_call(NmslibCall::FreeSpace),
                "Failed to create HNSW index".to_owned(),
            );
        }
        let give_up = two_calls(NmslibCall::FreeIndex, NmslibCall::FreeSpace);
        match &self.source {
            LoadSource::Path(path) => if p == 2 {
                uncertain(
                    NmslibCall::LoadIndex,
                    give_up,
                    join("Failed to load index from: ", path.as_str()),
                )
            } else {
                uncertain(
                    NmslibCall::SetQueryTimeParams,
                    give_up,
                    "Failed to set query time params".to_owned(),
                )
            },
            LoadSource::Stream => if p == 2 {
                uncertain(
                    NmslibCall::SetQueryTimeParams,
                    give_up,
                    "Failed to set query time params".to_owned(),
                )
            } else if p == 3 {
                uncertain(
                    NmslibCall::NewIstream,
                    give_up,
                    "Failed to create istream for NMSLIB load".to_owned(),
                )
            } else if p == 4 {
                uncertain(
                    NmslibCall::LoadFromStream,
                    three_calls(
                        NmslibCall::FreeIstream,
                        NmslibCall::FreeIndex,
                        NmslibCall::FreeSpace,
                    ),
                    "Failed to load index with stream".to_owned(),
                )
            } else {
                certain(NmslibCall::FreeIstream)
            },
        }
    }
}

/// Making a wrapped index and loading it, which is handed to the caller.
pub struct WrapperLoadPlan {
    pub from_stream: bool,
}

impl WrapperLoadPlan {
    /// What is held after the first `p` steps.
    spec fn held(&self, p: nat) -> Set<NmslibObject> {
        if p == 0 {
            set![]
        } else if self.from_stream && (p == 2 || p == 3) {
            set![NmslibObject::IndexWrapper, NmslibObject::Istream]
        } else {
            set![NmslibObject::IndexWrapper]
        }
    }

    /// Whatever the native calls answer, the plan leaves the wrapped index or
    /// nothing: the index where no call fails, and nothing where one does.
    pub proof fn lemma_settles(&self)
        ensures
            native_plan::held_at_end(self.steps(), set![]) == Some(
                set![NmslibObject::IndexWrapper],
            ),
            forall|p: nat|
                p < self.steps().len() && (#[trigger] self.steps()[p as int]).failure is Some
                    ==> native_plan::held_on_failure(self.steps(), p, set![]) == Some(
                    Set::<NmslibObject>::empty(),
                ),
    {
        let steps = self.steps();
        let held = |p: nat| self.held(p);
        assert forall|p: nat| p < steps.len() implies {
            let call = (#[trigger] steps[p as int]).call;
            &&& call.releases().subset_of(held(p))
            &&& call.makes().disjoint(held(p).difference(call.releases()))
            &&& held(p + 1) == held(p).difference(call.releases()).union(call.makes())
        } by {
            let call = steps[p as int].call;
            assert(held(p + 1) =~= held(p).difference(call.releases()).union(call.makes()));
        }
        native_plan::lemma_ledger_along(steps, held, steps.len());
        let none = Set::<NmslibObject>::empty();
        let wrapper = set![NmslibObject::IndexWrapper];
        let both = set![NmslibObject::IndexWrapper, NmslibObject::Istream];
        assert(both.difference(NmslibCall::FreeIstream.releases()).union(none) =~= wrapper);
        assert(wrapper.difference(NmslibCall::FreeWrapper.releases()).union(none) =~= none);
        assert forall|p: nat|
            p < steps.len() && (#[trigger] steps[p as int]).failure is Some implies native_plan::held_on_failure(
            steps,
            p,
            set![],
        ) == Some(none) by {
            let cleanup = (steps[p as int].failure->0).0;
            native_plan::lemma_ledger_on_failure(steps, held, p);
            native_plan::lemma_ledger_few(cleanup, held(p));
        }
    }
}

impl NativePlan for WrapperLoadPlan {
    type Call = NmslibCall;

    open spec fn steps(&self) -> Seq<StepView<NmslibCall>> {
        let create = native_plan::unsure(
            NmslibCall::CreateWrapper,
            seq![],
            FaultView::Runtime("Failed to create NMSLIB IndexWrapper"@),
        );
        if self.from_stream {
            seq![
                create,
                native_plan::sure(NmslibCall::NewIstream),
                native_plan::unsure(
                    NmslibCall::LoadWrapper,
                    seq![NmslibCall::FreeIstream, NmslibCall::FreeWrapper],
                    FaultView::Runtime("Failed to load NMSLIB index from stream"@),
                ),
                native_plan::sure(NmslibCall::FreeIstream),
            ]
        } else {
            seq![
                create,
                native_plan::unsure(
                    NmslibCall::LoadWrapper,
                    seq![NmslibCall::FreeWrapper],
                    FaultView::Runtime("Failed to load NMSLIB index"@),
                ),
            ]
        }
    }

    open spec fn wf(&self) -> bool {
        true
    }

    fn len(&self) -> (n: usize) {
        if self.from_stream {
            4
        } else {
            2
        }
    }

    fn step(&self, p: usize) -> (step: Step<NmslibCall>) {
        if p == 0 {
            uncertain(
                NmslibCall::CreateWrapper,
                Vec::new(),
                "Failed to create NMSLIB IndexWrapper".to_owned(),
            )
        } else if !self.from_stream {
            uncertain(
                NmslibCall::LoadWrapper,
                one_call(NmslibCall::FreeWrapper),
                "Failed to load NMSLIB index".to_owned(),
            )
        } else if p == 1 {
            certain(NmslibCall::NewIstream)
        } else if p == 2 {
            uncertain(
                NmslibCall::LoadWrapper,
                two_calls(NmslibCall::FreeIstream, NmslibCall::FreeWrapper),
                "Failed to load NMSLIB index from stream".to_owned(),
            )
        } else {
            certain(NmslibCall::FreeIstream)
        }
    }
}

/// Querying an index and handing the results to Java.
pub struct QueryPlan {
    /// The size of the candidate list; -1 stands for the index's own.
    pub ef_search: i32,
}

impl QueryPlan {
    /// The cleanup once the query is made.
    pub open spec fn give_up() -> Seq<NmslibCall> {
        seq![NmslibCall::FreeQuery, NmslibCall::FreeQueryObject]
    }

    /// What is held after the first `p` steps.
    spec fn held(&self, p: nat) -> Set<NmslibObject> {
        if p == 0 || p == 8 {
            set![]
        } else if p == 1 || p == 7 {
            set![NmslibObject::QueryData]
        } else if p == 4 || p == 5 {
            set![NmslibObject::QueryData, NmslibObject::Query, NmslibObject::Queue]
        } else {
            set![NmslibObject::QueryData, NmslibObject::Query]
        }
    }

    /// What is held where step `p` fails.
    pub open spec fn held_after_fault(&self, p: nat) -> Set<NmslibObject> {
        if self.steps()[p as int].call is SendResults {
            set![NmslibObject::QueryData, NmslibObject::Query, NmslibObject::Queue]
        } else {
            set![]
        }
    }

    /// Whatever the native calls answer, every native object that the plan makes
    /// is released exactly once. Where Java does not take the results, the plan ends
    /// with what it holds at that point.
    pub proof fn lemma_settles(&self)
        ensures
            native_plan::held_at_end(self.steps(), set![]) == Some(Set::<NmslibObject>::empty()),
            forall|p: nat|
                p < self.steps().len() && (#[trigger] self.steps()[p as int]).failure is Some
                    ==> native_plan::held_on_failure(self.steps(), p, set![]) == Some(
                    self.held_after_fault(p),
                ),
    {
        let steps = self.steps();
        let held = |p: nat| self.held(p);
        assert forall|p: nat| p < steps.len() implies {
            let call = (#[trigger] steps[p as int]).call;
            &&& call.releases().subset_of(held(p))
            &&& call.makes().disjoint(held(p).difference(call.releases()))
            &&& held(p + 1) == held(p).difference(call.releases()).union(call.makes())
        } by {
            let call = steps[p as int].call;
            assert(held(p + 1) =~= held(p).difference(call.releases()).union(call.makes()));
        }
        native_plan::lemma_ledger_along(steps, held, steps.len());
        let none = Set::<NmslibObject>::empty();
        let data = set![NmslibObject::QueryData];
        let both = set![NmslibObject::QueryData, NmslibObject::Query];
        assert(both.difference(NmslibCall::FreeQuery.releases()).union(none) =~= data);
        assert(data.difference(NmslibCall::FreeQueryObject.releases()).union(none) =~= none);
        assert forall|p: nat|
            p < steps.len() && (#[trigger] steps[p as int]).failure is Some implies native_plan::held_on_failure(
            steps,
            p,
            set![],
        ) == Some(self.held_after_fault(p)) by {
            let cleanup = (steps[p as int].failure->0).0;
            native_plan::lemma_ledger_on_failure(steps, held, p);
            native_plan::lemma_ledger_few(cleanup, held(p));
        }
    }
}

impl NativePlan for QueryPlan {
    type Call = NmslibCall;

    open spec fn steps(&self) -> Seq<StepView<NmslibCall>> {
        seq![
            native_plan::unsure(
                NmslibCall::CreateQueryObject,
                seq![],
                FaultView::Runtime("Failed to create query object"@),
            ),
            native_plan::unsure(
                NmslibCall::CreateQuery {
                    ef_search: if self.ef_search == -1 {
                        None
                    } else {
                        Some(self.ef_search)
                    },
                },
                seq![NmslibCall::FreeQueryObject],
                FaultView::Runtime("Failed to create KNN query"@),
            ),
            native_plan::unsure(
                NmslibCall::Search,
                Self::give_up(),
                FaultView::Runtime("Index search failed"@),
            ),
            native_plan::unsure(
                NmslibCall::CloneResults,
                Self::give_up(),
                FaultView::Runtime("Failed to clone query results"@),
            ),
            native_plan::unsure(NmslibCall::SendResults, seq![], FaultView::Java),
            native_plan::sure(NmslibCall::FreeQueue),
            native_plan::sure(NmslibCall::FreeQuery),
            native_plan::sure(NmslibCall::FreeQueryObject),
        ]
    }

    open spec fn wf(&self) -> bool {
        true
    }

    fn len(&self) -> (n: usize) {
        8
    }

    fn step(&self, p: usize) -> (step: Step<NmslibCall>) {
        let give_up = two_calls(NmslibCall::FreeQuery, NmslibCall::FreeQueryObject);
        if p == 0 {
            uncertain(
                NmslibCall::CreateQueryObject,
                Vec::new(),
                "Failed to create query object".to_owned(),
            )
        } else if p == 1 {
            uncertain(
                NmslibCall::CreateQuery {
                    ef_search: if self.ef_search == -1 {
                        None
                    } else {
                        Some(self.ef_search)
                    },
                },
                one_call(NmslibCall::FreeQueryObject),
                "Failed to create KNN query".to_owned(),
            )
        } else if p == 2 {
            uncertain(NmslibCall::Search, give_up, "Index search failed".to_owned())
        } else if p == 3 {
            uncertain(
                NmslibCall::CloneResults,
                give_up,
                "Failed to clone query results".to_owned(),
            )
        } else if p == 4 {
            Step {
                call: NmslibCall::SendResults,
                failure: Some(Failure { cleanup: Vec::new(), fault: Fault::Java }),
            }
        } else if p == 5 {
            certain(NmslibCall::FreeQueue)
        } else if p == 6 {
            certain(NmslibCall::FreeQuery)
        } else {
            certain(NmslibCall::FreeQueryObject)
        }
    }
}

/// The call that makes the data object of vector `v`.
pub open spec fn object_of(v: usize) -> NmslibCall {
    NmslibCall::CreateObject { vector: v }
}

impl CreatePlan {
    /// The space is made first, an index over as many data objects as there are vectors is made,
    /// built and saved, and then everything is released: once each and in this order.
    pub proof fn lemma_calls(&self)
        requires
            self.wf(),
        ensures
            native_plan::made_in_order(
                self.steps(),
                seq![
                    NmslibCall::CreateSpace,
                    NmslibCall::CreateIndex { objects: self.num_vectors },
                    NmslibCall::BuildIndex,
                    NmslibCall::NewOstream,
                    NmslibCall::SaveIndex,
                    NmslibCall::FreeOstream,
                    NmslibCall::FreeIndex,
                    NmslibCall::FreeObjects { objects: self.num_vectors },
                    NmslibCall::FreeSpace,
                    NmslibCall::ReleaseVectors,
                ],
            ),
            self.steps().len() == self.num_vectors + 10,
    {
        let steps = self.steps();
        let n = self.num_vectors as int;
        let calls = seq![
            NmslibCall::CreateSpace,
            NmslibCall::CreateIndex { objects: self.num_vectors },
            NmslibCall::BuildIndex,
            NmslibCall::NewOstream,
            NmslibCall::SaveIndex,
            NmslibCall::FreeOstream,
            NmslibCall::FreeIndex,
            NmslibCall::FreeObjects { objects: self.num_vectors },
            NmslibCall::FreeSpace,
            NmslibCall::ReleaseVectors,
        ];
        let at = |i: int|
            if i < 1 {
                i
            } else {
                i + n
            };
        assert(forall|p: int| 1 <= p < 1 + n ==> (#[trigger] steps[p]).call is CreateObject);
        assert forall|i: int| 0 <= i < calls.len() implies native_plan::made_once(
            steps,
            #[trigger] calls[i],
            at(i),
        ) by {
            assert(steps[at(i)].call == calls[i]);
            assert forall|p: int| 0 <= p < steps.len() && (#[trigger] steps[p]).call == calls[i] implies p
                == at(i) by {
                if p < 1 {
                    assert(steps[p].call == calls[p]);
                } else if p >= 1 + n {
                    assert(steps[p].call == calls[p - n]);
                }
            }
        }
        native_plan::lemma_made_in_order(steps, calls, at);
    }

    /// Every vector gets one data object, vector after vector, behind the space and before the
    /// index; no other data object is made.
    pub proof fn lemma_objects(&self)
        requires
            self.wf(),
        ensures
            forall|v: usize|
                v < self.num_vectors ==> {
                    &&& native_plan::made_before(
                        self.steps(),
                        NmslibCall::CreateSpace,
                        #[trigger] object_of(v),
                    )
                    &&& native_plan::made_before(
                        self.steps(),
                        object_of(v),
                        NmslibCall::CreateIndex { objects: self.num_vectors },
                    )
                },
            forall|v: usize, w: usize|
                v < w < self.num_vectors ==> native_plan::made_before(
                    self.steps(),
                    #[trigger] object_of(v),
                    #[trigger] object_of(w),
                ),
            forall|p: int|
                0 <= p < self.steps().len() ==> ((
                #[trigger] self.steps()[p]).call matches NmslibCall::CreateObject { vector }
                    ==> vector < self.num_vectors),
    {
        let steps = self.steps();
        let n = self.num_vectors;
        assert forall|v: usize| v < n implies native_plan::made_once(
            steps,
            #[trigger] object_of(v),
            v + 1,
        ) by {
            assert(steps[v + 1].call == object_of(v));
        }
        assert(native_plan::made_once(steps, NmslibCall::CreateSpace, 0));
        assert(native_plan::made_once(steps, NmslibCall::CreateIndex { objects: n }, n + 1));
        assert forall|v: usize| v < n implies {
            &&& native_plan::made_before(
                steps,
                NmslibCall::CreateSpace,
                #[trigger] object_of(v),
            )
            &&& native_plan::made_before(
                steps,
                object_of(v),
                NmslibCall::CreateIndex { objects: n },
            )
        } by {
            assert(native_plan::made_once(steps, object_of(v), v + 1));
        }
        assert forall|v: usize, w: usize| v < w < n implies native_plan::made_before(
            steps,
            #[trigger] object_of(v),
            #[trigger] object_of(w),
        ) by {
            assert(native_plan::made_once(steps, object_of(v), v + 1));
            assert(native_plan::made_once(steps, object_of(w), w + 1));
        }
    }

    /// Every call that can fail is named by the fault that the plan then ends with.
    pub proof fn lemma_faults(&self)
        requires
            self.wf(),
        ensures
            forall|p: int|
                0 <= p < self.steps().len() ==> match (#[trigger] self.steps()[p]).call {
                    NmslibCall::CreateSpace => native_plan::faults_with(
                        self.steps(),
                        p,
                        FaultView::Runtime("Failed to create space: "@ + self.space_type@),
                    ),
                    NmslibCall::CreateObject { .. } => native_plan::faults_with(
                        self.steps(),
                        p,
                        FaultView::Runtime("Failed to create NMSLIB object"@),
                    ),
                    NmslibCall::CreateIndex { .. } => native_plan::faults_with(
                        self.steps(),
                        p,
                        FaultView::Runtime("Failed to create HNSW index"@),
                    ),
                    NmslibCall::BuildIndex => native_plan::faults_with(
                        self.steps(),
                        p,
                        FaultView::Runtime("Failed to build index"@),
                    ),
                    NmslibCall::NewOstream => native_plan::faults_with(
                        self.steps(),
                        p,
                        FaultView::Runtime("Failed to create ostream for NMSLIB save"@),
                    ),
                    NmslibCall::SaveIndex => native_plan::faults_with(
                        self.steps(),
                        p,
                        FaultView::Runtime("Failed to save index with stream"@),
                    ),
                    _ => self.steps()[p].failure is None,
                },
    {
    }
}

impl LoadPlan {
    /// The space is made and an index of no data objects over it, and the index is loaded and gets
    /// its query-time parameters, once each: a file is loaded before they are set, and a stream
    /// behind that, which is opened for it and closed. Nothing else is done.
    pub proof fn lemma_calls(&self)
        ensures
            native_plan::made_before(
                self.steps(),
                NmslibCall::CreateSpace,
                NmslibCall::CreateIndex { objects: 0 },
            ),
            self.source is Path ==> self.steps().len() == 4 && native_plan::made_in_order(
                self.steps(),
                seq![
                    NmslibCall::CreateIndex { objects: 0 },
                    NmslibCall::LoadIndex,
                    NmslibCall::SetQueryTimeParams,
                ],
            ),
            self.source is Stream ==> self.steps().len() == 6 && native_plan::made_in_order(
                self.steps(),
                seq![
                    NmslibCall::CreateIndex { objects: 0 },
                    NmslibCall::SetQueryTimeParams,
                    NmslibCall::NewIstream,
                    NmslibCall::LoadFromStream,
                    NmslibCall::FreeIstream,
                ],
            ),
    {
        let steps = self.steps();
        assert(native_plan::made_once(steps, NmslibCall::CreateSpace, 0));
        assert(native_plan::made_once(steps, NmslibCall::CreateIndex { objects: 0 }, 1));
        if self.source is Path {
            let calls = seq![
                NmslibCall::CreateIndex { objects: 0 },
                NmslibCall::LoadIndex,
                NmslibCall::SetQueryTimeParams,
            ];
            native_plan::lemma_made_in_order(steps, calls, |i: int| i + 1);
        } else {
            let calls = seq![
                NmslibCall::CreateIndex { objects: 0 },
                NmslibCall::SetQueryTimeParams,
                NmslibCall::NewIstream,
                NmslibCall::LoadFromStream,
                NmslibCall::FreeIstream,
            ];
            native_plan::lemma_made_in_order(steps, calls, |i: int| i + 1);
        }
    }

    /// Every call that can fail is named by the fault that the plan then ends with.
    pub proof fn lemma_faults(&self)
        ensures
            forall|p: int|
                0 <= p < self.steps().len() ==> match (#[trigger] self.steps()[p]).call {
                    NmslibCall::CreateSpace => native_plan::faults_with(
                        self.steps(),
                        p,
                        FaultView::Runtime("Failed to create space: "@ + self.space_type@),
                    ),
                    NmslibCall::CreateIndex { .. } => native_plan::faults_with(
                        self.steps(),
                        p,
                        FaultView::Runtime("Failed to create HNSW index"@),
                    ),
                    NmslibCall::LoadIndex => self.source matches LoadSource::Path(path)
                        && native_plan::faults_with(
                        self.steps(),
                        p,
                        FaultView::Runtime("Failed to load index from: "@ + path@),
                    ),
                    NmslibCall::SetQueryTimeParams => native_plan::faults_with(
                        self.steps(),
                        p,
                        FaultView::Runtime("Failed to set query time params"@),
                    ),
                    NmslibCall::NewIstream => native_plan::faults_with(
                        self.steps(),
                        p,
                        FaultView::Runtime("Failed to create istream for NMSLIB load"@),
                    ),
                    NmslibCall::LoadFromStream => native_plan::faults_with(
                        self.steps(),
                        p,
                        FaultView::Runtime("Failed to load index with stream"@),
                    ),
                    _ => self.steps()[p].failure is None,
                },
    {
    }
}

impl WrapperLoadPlan {
    /// The wrapped index is made and then loaded, once each; a stream is opened for the loading
    /// and closed behind it. Nothing else is done. A call that fails is named by the fault.
    pub proof fn lemma_calls(&self)
        ensures
            native_plan::made_before(
                self.steps(),
                NmslibCall::CreateWrapper,
                NmslibCall::LoadWrapper,
            ),
            !self.from_stream ==> self.steps().len() == 2,
            self.from_stream ==> self.steps().len() == 4 && native_plan::made_in_order(
                self.steps(),
                seq![NmslibCall::NewIstream, NmslibCall::LoadWrapper, NmslibCall::FreeIstream],
            ),
            forall|p: int|
                0 <= p < self.steps().len() ==> match (#[trigger] self.steps()[p]).call {
                    NmslibCall::CreateWrapper => native_plan::faults_with(
                        self.steps(),
                        p,
                        FaultView::Runtime("Failed to create NMSLIB IndexWrapper"@),
                    ),
                    NmslibCall::LoadWrapper => native_plan::faults_with(
                        self.steps(),
                        p,
                        FaultView::Runtime(
                            if self.from_stream {
                                "Failed to load NMSLIB index from stream"@
                            } else {
                                "Failed to load NMSLIB index"@
                            },
                        ),
                    ),
                    _ => self.steps()[p].failure is None,
                },
    {
        let steps = self.steps();
        assert(native_plan::made_once(steps, NmslibCall::CreateWrapper, 0));
        if self.from_stream {
            assert(native_plan::made_once(steps, NmslibCall::LoadWrapper, 2));
            let calls = seq![
                NmslibCall::NewIstream,
                NmslibCall::LoadWrapper,
                NmslibCall::FreeIstream,
            ];
            native_plan::lemma_made_in_order(steps, calls, |i: int| i + 1);
        } else {
            assert(native_plan::made_once(steps, NmslibCall::LoadWrapper, 1));
        }
    }
}

impl QueryPlan {
    /// A query is made of its data, with the size of the candidate list unless that is the index's
    /// own; the index is searched, and the results are copied and handed to Java before anything
    /// is released: once each and in this order. Nothing else is done.
    pub proof fn lemma_calls(&self)
        ensures
            native_plan::made_in_order(
                self.steps(),
                seq![
                    NmslibCall::CreateQueryObject,
                    NmslibCall::CreateQuery {
                        ef_search: if self.ef_search == -1 {
                            None
                        } else {
                            Some(self.ef_search)
                        },
                    },
                    NmslibCall::Search,
                    NmslibCall::CloneResults,
                    NmslibCall::SendResults,
                    NmslibCall::FreeQueue,
                    NmslibCall::FreeQuery,
                    NmslibCall::FreeQueryObject,
                ],
            ),
            self.steps().len() == 8,
    {
        let calls = seq![
            NmslibCall::CreateQueryObject,
            NmslibCall::CreateQuery {
                ef_search: if self.ef_search == -1 {
                    None
                } else {
                    Some(self.ef_search)
                },
            },
            NmslibCall::Search,
            NmslibCall::CloneResults,
            NmslibCall::SendResults,
            NmslibCall::FreeQueue,
            NmslibCall::FreeQuery,
            NmslibCall::FreeQueryObject,
        ];
        let steps = self.steps();
        assert forall|i: int| 0 <= i < calls.len() implies native_plan::made_once(
            steps,
            #[trigger] calls[i],
            i,
        ) by {
            assert(steps[i].call == calls[i]);
            assert forall|p: int| 0 <= p < steps.len() && (#[trigger] steps[p]).call == calls[i] implies p
                == i by {
                assert(steps[p].call == calls[p]);
            }
        }
        native_plan::lemma_made_in_order(steps, calls, |i: int| i);
    }

    /// Every call that can fail is named by the fault that the plan then ends with.
    pub proof fn lemma_faults(&self)
        ensures
            forall|p: int|
                0 <= p < self.steps().len() ==> match (#[trigger] self.steps()[p]).call {
                    NmslibCall::CreateQueryObject => native_plan::faults_with(
                        self.steps(),
                        p,
                        FaultView::Runtime("Failed to create query object"@),
                    ),
                    NmslibCall::CreateQuery { .. } => native_plan::faults_with(
                        self.steps(),
                        p,
                        FaultView::Runtime("Failed to create KNN query"@),
                    ),
                    NmslibCall::Search => native_plan::faults_with(
                        self.steps(),
                        p,
                        FaultView::Runtime("Index search failed"@),
                    ),
                    NmslibCall::CloneResults => native_plan::faults_with(
                        self.steps(),
                        p,
                        FaultView::Runtime("Failed to clone query results"@),
                    ),
                    NmslibCall::SendResults => native_plan::faults_with(
                        self.steps(),
                        p,
                        FaultView::Java,
                    ),
                    _ => self.steps()[p].failure is None,
                },
    {
    }
}

} // verus!
