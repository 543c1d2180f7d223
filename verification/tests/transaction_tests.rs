use bw_scripting::transaction::{MutationQueue, TransactionContext};

#[test]
fn rolled_back_transaction_is_not_committed() {
    let mut q: MutationQueue<u32> = MutationQueue::new();
    q.push(1);
    let mut tx = TransactionContext::new(Some(&q));
    q.push(2);
    tx.rollback(&mut q);
    assert!(!tx.is_committed());
    assert_eq!(q.pending_mutation_count(), 1);
    assert!(tx.commit(&mut q));
    assert!(!tx.is_committed());
    assert_eq!(q.pending_mutation_count(), 1);
}

#[test]
fn commit_keeps_the_queue_and_a_second_commit_does_nothing() {
    let mut q: MutationQueue<u32> = MutationQueue::new();
    let mut tx = TransactionContext::new(Some(&q));
    q.push(1);
    q.push(2);
    assert!(tx.commit(&mut q));
    assert!(tx.is_committed());
    assert_eq!(q.pending_mutation_count(), 2);
    assert!(tx.commit(&mut q));
    tx.rollback(&mut q);
    assert!(tx.is_committed());
    assert_eq!(q.pending_mutation_count(), 2);
    tx.end(&mut q);
    assert_eq!(q.pending_mutation_count(), 2);
}

#[test]
fn unfinished_transaction_rolls_back_when_it_ends() {
    let mut q: MutationQueue<u32> = MutationQueue::new();
    q.push(1);
    let tx = TransactionContext::new(Some(&q));
    q.push(2);
    q.push(3);
    tx.end(&mut q);
    assert_eq!(q.take_mutations(), vec![1]);
}
