use chain_wal::chain::{
    ChainHandler, ChainOrchestrator, FromOrchestrator, HandlerEvent, OrchestratorState,
    PipelineAction,
};
use chain_wal::models::{Env, Ommer, Withdrawal};
use chain_wal::system_calls::{
    plan_beacon_root_contract_call, BeaconRootCallError, BeaconRootCallPlan,
};

struct CountingHandler {
    events_seen: u64,
    next: Option<HandlerEvent>,
}

impl ChainHandler for CountingHandler {
    fn on_event(&mut self, _event: FromOrchestrator) {
        self.events_seen += 1;
    }

    fn poll(&mut self) -> Option<HandlerEvent> {
        self.next.take()
    }
}

#[test]
fn orchestrator_state_queries() {
    assert!(OrchestratorState::WriteAccess.is_write_access());
    assert!(!OrchestratorState::WriteAccess.is_idle());
    assert!(OrchestratorState::Idle.is_idle());
    assert!(!OrchestratorState::Idle.is_write_access());
    assert_eq!(OrchestratorState::default(), OrchestratorState::Idle);
}

#[test]
fn orchestrator_exposes_its_handler() {
    let handler = CountingHandler {
        events_seen: 0,
        next: Some(HandlerEvent::Pipeline(PipelineAction::SyncPipeline)),
    };
    let mut orchestrator = ChainOrchestrator::new(handler);
    assert_eq!(orchestrator.handler().events_seen, 0);

    orchestrator.handler_mut().on_event(FromOrchestrator::PausedWriteHookAccess);
    orchestrator.handler_mut().on_event(FromOrchestrator::ReleaseWriteHookAccess);
    assert_eq!(orchestrator.handler().events_seen, 2);

    let action = orchestrator.handler_mut().poll();
    assert!(matches!(action, Some(HandlerEvent::Pipeline(PipelineAction::SyncPipeline))));
    assert!(orchestrator.handler_mut().poll().is_none());
}

#[test]
fn env_holds_its_block_description() {
    let env = Env {
        current_coinbase: 0xc0ffee,
        current_gas_limit: 30_000_000,
        current_number: 17,
        current_timestamp: 1_700_000_000,
        withdrawals: vec![Withdrawal { index: 1, validator_index: 9, address: 0xaa, amount: 64 }],
        current_difficulty: 0,
        current_random: 42,
        current_base_fee: 7,
        parent_gas_used: 21_000,
        parent_gas_limit: 30_000_000,
        parent_timestamp: 1_699_999_988,
        block_hashes: vec![0x10, 0x11],
        parent_uncle_hash: 0x55,
        ommers: vec![Ommer { delta: 1, address: 0xbb }],
    };
    assert_eq!(env.current_number, 17);
    assert_eq!(env.withdrawals[0].amount, 64);
    assert_eq!(env.ommers[0].delta, 1);
    assert_eq!(env.block_hashes.len(), 2);
}

#[test]
fn beacon_root_call_plan_cases() {
    // Fork inactive: nothing runs, whatever else is supplied.
    assert_eq!(
        plan_beacon_root_contract_call(false, 5, Some(9)),
        Ok(BeaconRootCallPlan::Skip)
    );
    // Fork active but no root supplied.
    assert_eq!(
        plan_beacon_root_contract_call(true, 5, None),
        Err(BeaconRootCallError::MissingParentBeaconBlockRoot)
    );
    // Genesis block with a non-zero root.
    assert_eq!(
        plan_beacon_root_contract_call(true, 0, Some(9)),
        Err(BeaconRootCallError::GenesisParentBeaconBlockRootNotZero {
            parent_beacon_block_root: 9
        })
    );
    // Genesis block with the zero root: nothing runs.
    assert_eq!(plan_beacon_root_contract_call(true, 0, Some(0)), Ok(BeaconRootCallPlan::Skip));
    // A later block: the call runs with the supplied root.
    assert_eq!(
        plan_beacon_root_contract_call(true, 7, Some(3)),
        Ok(BeaconRootCallPlan::Transact { parent_beacon_block_root: 3 })
    );
}
