use knn_jni_rs::faiss_index_service::{create_index_service, IndexType};
use knn_jni_rs::faiss_plan::{FaissCall, TemplatePlan, TrainPlan, WritePlan};
use knn_jni_rs::native_plan::{Directive, Fault, NativePlan, PlanRunner};
use knn_jni_rs::nmslib_plan::{
    CreatePlan, LoadPlan, LoadSource, NmslibCall, QueryPlan, WrapperLoadPlan,
};

/// Runs a plan whose calls all succeed but the one that `fails` names.
fn run<P: NativePlan>(plan: P, fails: Option<P::Call>) -> (Vec<P::Call>, Option<Fault>)
where
    P::Call: PartialEq,
{
    let mut runner = PlanRunner::new(plan);
    let mut calls = Vec::new();
    let mut ok = true;
    loop {
        match runner.next(ok) {
            Directive::Perform(call) => {
                ok = fails != Some(call);
                calls.push(call);
            }
            Directive::Finished => return (calls, None),
            Directive::Failed(fault) => return (calls, Some(fault)),
        }
    }
}

fn runtime(fault: Option<Fault>) -> String {
    match fault {
        Some(Fault::Runtime(text)) => text,
        other => panic!("{:?} is no runtime fault", other),
    }
}

#[test]
fn a_template_is_filled_and_sent() {
    let plan = TemplatePlan { kind: IndexType::Float, num_vectors: 5 };
    let (calls, fault) = run(plan, None);
    assert!(fault.is_none());
    assert_eq!(
        calls,
        vec![
            FaissCall::NewReader,
            FaissCall::ReadTemplate,
            FaissCall::FreeReader,
            FaissCall::AskIds,
            FaissCall::NewIdMap,
            FaissCall::AddVectors { start: 0, count: 5 },
            FaissCall::ReleaseVectors,
            FaissCall::NewWriter,
            FaissCall::WriteToBuffer,
            FaissCall::SendBytes,
            FaissCall::FreeWriter,
            FaissCall::FreeIdMap,
        ]
    );
}

#[test]
fn a_template_that_cannot_be_read_is_given_up() {
    let plan = TemplatePlan { kind: IndexType::Binary, num_vectors: 5 };
    let (calls, fault) = run(plan, Some(FaissCall::ReadTemplate));
    assert_eq!(
        calls,
        vec![FaissCall::NewReader, FaissCall::ReadTemplate, FaissCall::FreeReader]
    );
    assert_eq!(runtime(fault), "Failed to read binary index from template");
    let plan = TemplatePlan { kind: IndexType::Float, num_vectors: 5 };
    let (calls, fault) = run(plan, Some(FaissCall::NewWriter));
    assert_eq!(calls.last(), Some(&FaissCall::FreeIdMap));
    assert_eq!(runtime(fault), "Failed to create VectorIOWriter");
    let plan = TemplatePlan { kind: IndexType::Float, num_vectors: 5 };
    let (calls, fault) = run(plan, Some(FaissCall::SendBytes));
    assert_eq!(calls.last(), Some(&FaissCall::SendBytes));
    assert!(matches!(fault, Some(Fault::Java)));
    let plan = TemplatePlan { kind: IndexType::Byte, num_vectors: 5 };
    let (calls, fault) = run(plan, Some(FaissCall::AskIds));
    assert_eq!(calls.last(), Some(&FaissCall::AskIds));
    assert!(matches!(fault, Some(Fault::Java)));
}

#[test]
fn byte_vectors_are_added_in_batches() {
    let service = create_index_service(IndexType::Byte);
    let plan = service.service.insert_to_index(2, 2500, 4, Some(5000)).unwrap();
    let (calls, fault) = run(plan, None);
    assert!(fault.is_none());
    assert_eq!(
        calls,
        vec![
            FaissCall::SetThreads { threads: Some(4) },
            FaissCall::CheckIdMap,
            FaissCall::AddVectors { start: 0, count: 1000 },
            FaissCall::AddVectors { start: 1000, count: 1000 },
            FaissCall::AddVectors { start: 2000, count: 500 },
        ]
    );
}

#[test]
fn insertion_stops_at_the_first_failure() {
    let service = create_index_service(IndexType::Float);
    let plan = service.service.insert_to_index(2, 3, 0, Some(6)).unwrap();
    let add = FaissCall::AddVectors { start: 0, count: 3 };
    let (calls, fault) = run(plan, Some(add));
    assert_eq!(
        calls,
        vec![FaissCall::SetThreads { threads: None }, FaissCall::CheckIdMap, add]
    );
    assert!(matches!(fault, Some(Fault::Add)));
    let plan = service.service.insert_to_index(2, 3, 0, Some(6)).unwrap();
    let (_, fault) = run(plan, Some(FaissCall::CheckIdMap));
    assert!(matches!(
        fault,
        Some(Fault::InvalidArgument(text)) if text == "id_map_address pointer is null"
    ));
}

#[test]
fn an_untrained_index_is_freed() {
    let service = create_index_service(IndexType::Float);
    let (calls, fault) = run(service.service.init_index(0), Some(FaissCall::CheckTrained));
    assert_eq!(calls.last(), Some(&FaissCall::FreeIndex));
    assert!(matches!(fault, Some(Fault::NotTrained)));
    let (calls, fault) = run(service.service.init_index(2), None);
    assert!(fault.is_none());
    assert_eq!(
        calls,
        vec![
            FaissCall::SetThreads { threads: Some(2) },
            FaissCall::MakeIndex,
            FaissCall::CheckTrained,
            FaissCall::NewIdMap,
            FaissCall::SetOwnFields,
            FaissCall::ReserveStorage,
        ]
    );
    let binary = create_index_service(IndexType::Binary);
    let (_, fault) = run(binary.service.init_index(0), Some(FaissCall::MakeIndex));
    assert!(matches!(
        fault,
        Some(Fault::Faiss(text)) if text == "faiss_index_binary_factory failed"
    ));
}

#[test]
fn training_needs_vectors() {
    let plan = TrainPlan { kind: IndexType::Float };
    let (calls, fault) = run(plan, Some(FaissCall::CheckTrainVectors));
    assert_eq!(
        calls,
        vec![
            FaissCall::MakeIndex,
            FaissCall::AskThreads,
            FaissCall::AskExtraParameters,
            FaissCall::CheckTrainVectors,
            FaissCall::FreeIndex,
        ]
    );
    assert!(matches!(
        fault,
        Some(Fault::NullPointer(text)) if text == "train_vectors_pointer is null"
    ));
    let (calls, fault) = run(TrainPlan { kind: IndexType::Binary }, None);
    assert!(fault.is_none());
    assert_eq!(calls.len(), 9);
    assert!(!calls.contains(&FaissCall::AskExtraParameters));
}

#[test]
fn training_ends_where_java_cannot_be_asked() {
    let plan = || TrainPlan { kind: IndexType::Byte };
    let (calls, fault) = run(plan(), Some(FaissCall::AskThreads));
    assert_eq!(calls, vec![FaissCall::MakeIndex, FaissCall::AskThreads]);
    assert!(matches!(fault, Some(Fault::Java)));
    let (calls, fault) = run(plan(), Some(FaissCall::AskExtraParameters));
    assert_eq!(calls.len(), 3);
    assert!(matches!(fault, Some(Fault::Java)));
    let (calls, fault) = run(plan(), Some(FaissCall::SendBytes));
    assert_eq!(calls.last(), Some(&FaissCall::SendBytes));
    assert!(matches!(fault, Some(Fault::Java)));
}

#[test]
fn a_written_index_is_released_either_way() {
    let (calls, fault) = run(WritePlan, None);
    assert_eq!(calls, vec![FaissCall::WriteToStream, FaissCall::FreeIdMap]);
    assert!(fault.is_none());
    let (calls, fault) = run(WritePlan, Some(FaissCall::WriteToStream));
    assert_eq!(calls, vec![FaissCall::WriteToStream, FaissCall::FreeIdMap]);
    assert!(matches!(
        fault,
        Some(Fault::Write(text)) if text == "Failed to write index to disk"
    ));
}

#[test]
fn an_nmslib_index_is_built_and_saved() {
    let plan = || CreatePlan { num_vectors: 2, space_type: "l2".to_string() };
    let (calls, fault) = run(plan(), None);
    assert!(fault.is_none());
    assert_eq!(
        calls,
        vec![
            NmslibCall::CreateSpace,
            NmslibCall::CreateObject { vector: 0 },
            NmslibCall::CreateObject { vector: 1 },
            NmslibCall::CreateIndex { objects: 2 },
            NmslibCall::BuildIndex,
            NmslibCall::NewOstream,
            NmslibCall::SaveIndex,
            NmslibCall::FreeOstream,
            NmslibCall::FreeIndex,
            NmslibCall::FreeObjects { objects: 2 },
            NmslibCall::FreeSpace,
            NmslibCall::ReleaseVectors,
        ]
    );
    let (calls, fault) = run(plan(), Some(NmslibCall::CreateObject { vector: 1 }));
    assert_eq!(
        calls[3..],
        [NmslibCall::FreeObjects { objects: 1 }, NmslibCall::FreeSpace]
    );
    assert_eq!(runtime(fault), "Failed to create NMSLIB object");
    let (_, fault) = run(plan(), Some(NmslibCall::CreateSpace));
    assert_eq!(runtime(fault), "Failed to create space: l2");
}

#[test]
fn an_nmslib_index_is_loaded() {
    let plan = |source| LoadPlan { space_type: "l1".to_string(), source };
    let (calls, _) = run(plan(LoadSource::Path("/tmp/index".to_string())), None);
    assert_eq!(
        calls,
        vec![
            NmslibCall::CreateSpace,
            NmslibCall::CreateIndex { objects: 0 },
            NmslibCall::LoadIndex,
            NmslibCall::SetQueryTimeParams,
        ]
    );
    let (calls, fault) = run(
        plan(LoadSource::Path("/tmp/index".to_string())),
        Some(NmslibCall::LoadIndex),
    );
    assert_eq!(calls[3..], [NmslibCall::FreeIndex, NmslibCall::FreeSpace]);
    assert_eq!(runtime(fault), "Failed to load index from: /tmp/index");
    let (calls, fault) = run(plan(LoadSource::Stream), Some(NmslibCall::LoadFromStream));
    assert_eq!(
        calls[5..],
        [NmslibCall::FreeIstream, NmslibCall::FreeIndex, NmslibCall::FreeSpace]
    );
    assert_eq!(runtime(fault), "Failed to load index with stream");
    let (calls, fault) = run(
        WrapperLoadPlan { from_stream: true },
        Some(NmslibCall::LoadWrapper),
    );
    assert_eq!(calls[3..], [NmslibCall::FreeIstream, NmslibCall::FreeWrapper]);
    assert_eq!(runtime(fault), "Failed to load NMSLIB index from stream");
    let (calls, _) = run(WrapperLoadPlan { from_stream: false }, None);
    assert_eq!(calls, vec![NmslibCall::CreateWrapper, NmslibCall::LoadWrapper]);
}

#[test]
fn an_nmslib_query_is_cleaned_up() {
    let (calls, fault) = run(QueryPlan { ef_search: -1 }, None);
    assert!(fault.is_none());
    assert_eq!(
        calls,
        vec![
            NmslibCall::CreateQueryObject,
            NmslibCall::CreateQuery { ef_search: None },
            NmslibCall::Search,
            NmslibCall::CloneResults,
            NmslibCall::SendResults,
            NmslibCall::FreeQueue,
            NmslibCall::FreeQuery,
            NmslibCall::FreeQueryObject,
        ]
    );
    let (calls, fault) = run(QueryPlan { ef_search: 30 }, Some(NmslibCall::Search));
    assert_eq!(calls[1], NmslibCall::CreateQuery { ef_search: Some(30) });
    assert_eq!(calls[3..], [NmslibCall::FreeQuery, NmslibCall::FreeQueryObject]);
    assert_eq!(runtime(fault), "Index search failed");
    let (calls, fault) = run(QueryPlan { ef_search: -1 }, Some(NmslibCall::SendResults));
    assert_eq!(calls.len(), 5);
    assert!(matches!(fault, Some(Fault::Java)));
}
