use hotstuff_core::data::Transaction;
use hotstuff_core::transactions::Mempool;

#[test]
fn mempool_keeps_arrival_order() {
    let mut m = Mempool::new();
    m.submit(Transaction { body: 1 });
    m.receive(&vec![Transaction { body: 2 }, Transaction { body: 3 }]);
    m.submit(Transaction { body: 4 });
    let bodies: Vec<u64> = m.txns.iter().map(|t| t.body).collect();
    assert_eq!(bodies, vec![1, 2, 3, 4]);
}

#[test]
fn take_block_draws_the_oldest() {
    let mut m = Mempool::new();
    m.receive(&(0..6u64).map(|b| Transaction { body: b }).collect());
    let block = m.take_block(0, 4).expect("enough transactions");
    let bodies: Vec<u64> = block.iter().map(|t| t.body).collect();
    assert_eq!(bodies, vec![0, 1, 2, 3]);
    // The drawn transactions left the mempool.
    let rest: Vec<u64> = m.txns.iter().map(|t| t.body).collect();
    assert_eq!(rest, vec![4, 5]);
}

#[test]
fn take_block_respects_the_minimum() {
    let mut m = Mempool::new();
    m.receive(&vec![Transaction { body: 7 }]);
    // Below the minimum: no block, nothing removed.
    assert!(m.take_block(2, 10).is_none());
    assert_eq!(m.txns.len(), 1);
    // With the minimum met, a short block is allowed.
    let block = m.take_block(1, 10).expect("one suffices");
    assert_eq!(block.len(), 1);
    assert_eq!(m.txns.len(), 0);
}

#[test]
fn shutdown_marks_the_task_exited() {
    let mut m = Mempool::new();
    m.submit(Transaction { body: 9 });
    m.shutdown();
    assert!(m.exited);
    assert_eq!(m.txns.len(), 1);
}
