use radix_engine::assoc::AssocMap;
use radix_engine::decimal::Decimal;
use radix_engine::host::{host_call, HostCall, HostError, HostResponse};
use radix_engine::process::ProcessError;
use radix_engine::resource_def::{NewSupply, ResourceDef, ResourceType};
use radix_engine::substate::InMemorySubstateStore;
use radix_engine::track::Track;
use radix_engine::types::{radix_token, Address, Bid, LogLevel, H256};

fn hash(byte: u8) -> H256 {
    H256::new(vec![byte; 32])
}

#[test]
fn host_calls_create_fill_and_split_buckets() {
    let mut track = Track::new(InMemorySubstateStore::new(), hash(1), Vec::new());
    let authorities: AssocMap<Address, u64> = AssocMap::new();
    let def = ResourceDef::new(
        ResourceType::Fungible { divisibility: 18 },
        Vec::new(),
        0,
        0,
        authorities,
        &Some(NewSupply::Fungible { amount: Decimal(0) }),
    )
    .unwrap();
    track.put_resource_def(radix_token(), def);
    let mut process = track.start_process(false);

    let bid = match host_call(
        &mut process,
        &mut track,
        HostCall::CreateEmptyBucket { resource_address: radix_token() },
    )
    .unwrap()
    {
        HostResponse::Bid(b) => b,
        _ => panic!("expected a bucket id"),
    };
    assert_eq!(bid, Bid(1024));

    match host_call(&mut track.start_process(false), &mut track, HostCall::GetBucketAmount {
        bid,
    }) {
        Err(HostError::Frame(ProcessError::BucketNotFound)) => {},
        _ => panic!("a fresh frame does not know the bucket"),
    }

    match host_call(&mut process, &mut track, HostCall::GetBucketAmount { bid }).unwrap() {
        HostResponse::Amount(a) => assert!(a.equals(&Decimal(0))),
        _ => panic!("expected an amount"),
    }

    match host_call(&mut process, &mut track, HostCall::GetBucketResourceAddress { bid })
        .unwrap()
    {
        HostResponse::ResourceAddress(a) => assert!(a.equals(&radix_token())),
        _ => panic!("expected an address"),
    }

    match host_call(&mut process, &mut track, HostCall::TakeFromBucket {
        bid,
        amount: Decimal(1),
    }) {
        Err(HostError::Frame(ProcessError::ResourceFailure(_))) => {},
        _ => panic!("an empty bucket covers nothing"),
    }
}

#[test]
fn host_calls_answer_context_queries() {
    let mut track = Track::new(InMemorySubstateStore::new(), hash(7), Vec::new());
    let mut process = track.start_process(false);

    match host_call(&mut process, &mut track, HostCall::GetTransactionHash).unwrap() {
        HostResponse::Hash(h) => assert_eq!(h.to_vec(), vec![7u8; 32]),
        _ => panic!("expected the hash"),
    }

    let first = match host_call(&mut process, &mut track, HostCall::GenerateUuid).unwrap() {
        HostResponse::Uuid(u) => u,
        _ => panic!("expected a uuid"),
    };
    let second = match host_call(&mut process, &mut track, HostCall::GenerateUuid).unwrap() {
        HostResponse::Uuid(u) => u,
        _ => panic!("expected a uuid"),
    };
    assert_ne!(first, second);

    host_call(&mut process, &mut track, HostCall::EmitLog {
        level: LogLevel::Info,
        message: String::from("hello"),
    })
    .unwrap();
    assert_eq!(track.logs().len(), 1);
    assert_eq!(track.logs()[0].1, "hello");
}
