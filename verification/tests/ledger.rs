use graph_runtime::cache::CompiledProgramCache;
use graph_runtime::document::NodeId;
use graph_runtime::ledger::{LedgerFault, PendingLedger};
use graph_runtime::messages::{GraphRuntimeRequest, NodeGraphUpdate, CompilationResponse};
use graph_runtime::runtime_io::NodeRuntimeIO;

#[test]
fn check_is_idempotent_once_adopted() {
    let mut cache = CompiledProgramCache::new();
    assert!(cache.needs_update(11, None, false));
    assert!(!cache.needs_update(11, None, false));
    assert!(!cache.needs_update(11, None, false));
    assert_eq!(cache.node_graph_hash(), 11);
    assert_eq!(cache.previous_node_to_inspect(), None);
}

#[test]
fn new_cache_holds_the_zero_fingerprint() {
    let mut cache = CompiledProgramCache::new();
    assert!(!cache.needs_update(0, None, false));
    assert!(cache.needs_update(0, None, true));
    assert!(!cache.needs_update(0, None, false));
}

#[test]
fn inspect_target_is_part_of_the_key() {
    let mut cache = CompiledProgramCache::new();
    assert!(cache.needs_update(11, None, false));
    assert!(cache.needs_update(11, Some(NodeId(5)), false));
    assert!(!cache.needs_update(11, Some(NodeId(5)), false));
    assert!(cache.needs_update(11, Some(NodeId(6)), false));
    assert!(cache.needs_update(11, None, false));
    assert!(!cache.needs_update(11, None, false));
}

#[test]
fn force_always_asks_for_an_update() {
    let mut cache = CompiledProgramCache::new();
    assert!(cache.needs_update(11, None, true));
    assert!(cache.needs_update(11, None, true));
    assert!(!cache.needs_update(11, None, false));
}

#[test]
fn overwritten_fingerprint_makes_the_next_check_fail() {
    let mut cache = CompiledProgramCache::new();
    cache.needs_update(11, Some(NodeId(5)), false);
    cache.overwrite_fingerprint(99);
    assert_eq!(cache.node_graph_hash(), 99);
    assert_eq!(cache.previous_node_to_inspect(), Some(NodeId(5)));
    assert!(cache.needs_update(11, Some(NodeId(5)), false));
}

#[test]
fn retire_discards_exactly_the_older_entries() {
    let mut ledger = PendingLedger::new();
    for id in [2u64, 3, 5, 8, 13] {
        ledger.push(id, id * 10);
    }
    assert_eq!(ledger.len(), 5);
    assert_eq!(ledger.retire_up_to(5), 2);
    assert_eq!(ledger.len(), 3);
    assert_eq!(ledger.retired_below(), 5);
    assert!(ledger.is_stale(4));
    assert!(!ledger.is_stale(5));
    assert!(!ledger.contains(3));
    assert!(ledger.contains(5));
    assert_eq!(ledger.pop_matching(5), 50);
    assert_eq!(ledger.len(), 2);
    assert!(!ledger.contains(5));
    assert!(ledger.contains(8));
}

#[test]
fn pop_after_retire_finds_the_entry_in_every_interleaving() {
    for mask in 0u32..64 {
        let mut ledger = PendingLedger::new();
        let mut next = 0u64;
        let mut pending: Vec<u64> = Vec::new();
        for step in 0..6 {
            ledger.push(next, next + 100);
            pending.push(next);
            next += 1;
            ledger.push(next, next + 100);
            pending.push(next);
            next += 1;
            if mask & (1 << step) != 0 {
                let pick = pending[pending.len() / 2];
                let older = pending.iter().filter(|id| **id < pick).count();
                assert_eq!(ledger.retire_up_to(pick), older);
                assert_eq!(ledger.pop_matching(pick), pick + 100);
                pending.retain(|id| *id > pick);
                assert_eq!(ledger.len(), pending.len());
                assert_eq!(ledger.retired_below(), pick);
            }
        }
        for id in 0..next {
            assert_eq!(ledger.contains(id), pending.contains(&id));
        }
    }
}

#[test]
fn retire_below_the_floor_changes_nothing() {
    let mut ledger = PendingLedger::new();
    ledger.push(4, 'a');
    ledger.push(6, 'b');
    assert_eq!(ledger.retire_up_to(6), 1);
    assert_eq!(ledger.retire_up_to(3), 0);
    assert_eq!(ledger.retired_below(), 6);
    assert_eq!(ledger.len(), 1);
    assert_eq!(ledger.retire_up_to(100), 1);
    assert_eq!(ledger.len(), 0);
    assert_eq!(ledger.retired_below(), 100);
}

#[test]
fn channel_keeps_the_order_in_both_directions() {
    let mut channel: NodeRuntimeIO<u8> = NodeRuntimeIO::new();
    assert!(channel.is_open());
    assert_eq!(channel.send(GraphRuntimeRequest::FontCacheUpdate(1)), Ok(()));
    assert_eq!(channel.send(GraphRuntimeRequest::EditorPreferencesUpdate(2)), Ok(()));
    assert_eq!(channel.send(GraphRuntimeRequest::FontCacheUpdate(3)), Ok(()));
    assert_eq!(
        channel.take_requests(),
        vec![GraphRuntimeRequest::FontCacheUpdate(1), GraphRuntimeRequest::EditorPreferencesUpdate(2), GraphRuntimeRequest::FontCacheUpdate(3)]
    );
    assert!(channel.take_requests().is_empty());

    assert!(channel.receive().is_empty());
    channel.deliver(NodeGraphUpdate::CompilationResponse(CompilationResponse { result: Ok(1), node_graph_errors: 0 }));
    channel.deliver(NodeGraphUpdate::CompilationResponse(CompilationResponse { result: Ok(2), node_graph_errors: 0 }));
    let received = channel.receive();
    assert_eq!(received.len(), 2);
    assert_eq!(received[0], NodeGraphUpdate::CompilationResponse(CompilationResponse { result: Ok(1), node_graph_errors: 0 }));
    assert_eq!(received[1], NodeGraphUpdate::CompilationResponse(CompilationResponse { result: Ok(2), node_graph_errors: 0 }));
    assert!(channel.receive().is_empty());
}

#[test]
fn closed_channel_refuses_to_send_and_keeps_what_is_in_line() {
    let mut channel: NodeRuntimeIO<u8> = NodeRuntimeIO::new();
    channel.send(GraphRuntimeRequest::FontCacheUpdate(1)).unwrap();
    channel.close();
    assert!(!channel.is_open());
    assert_eq!(channel.send(GraphRuntimeRequest::FontCacheUpdate(2)), Err("sending on a closed channel".to_string()));
    assert_eq!(channel.take_requests(), vec![GraphRuntimeRequest::FontCacheUpdate(1)]);
}

#[test]
fn fault_tells_what_is_wrong_with_an_id() {
    let mut ledger = PendingLedger::new();
    assert_eq!(ledger.fault(0), Some(LedgerFault::InvalidGenerationId));
    for id in [2u64, 3, 5] {
        ledger.push(id, ());
    }
    assert_eq!(ledger.fault(2), None);
    assert_eq!(ledger.fault(5), None);
    assert_eq!(ledger.fault(0), Some(LedgerFault::MismatchInExecutionId { found: 2 }));
    assert_eq!(ledger.fault(4), Some(LedgerFault::MismatchInExecutionId { found: 5 }));
    assert_eq!(ledger.fault(6), Some(LedgerFault::InvalidGenerationId));
    assert_eq!(ledger.len(), 3);
    for id in 0..8 {
        assert_eq!(ledger.fault(id).is_none(), ledger.contains(id));
    }
}
