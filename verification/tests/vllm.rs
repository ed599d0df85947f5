use susi::vllm::{BlockAllocator, ContinuousScheduler, PhysicalBlockId, SequenceId, SequenceState, BLOCK_SIZE};

#[test]
fn allocator_keeps_ninety_percent_of_the_pool() {
    let a = BlockAllocator::new(1, 64, 128, 8);
    assert_eq!(a.total_blocks, 230);
    assert_eq!(a.get_available_blocks(), 230);
    assert_eq!(BLOCK_SIZE, 16);
}

#[test]
fn allocation_takes_from_the_head_and_frees_to_the_tail() {
    let mut a = BlockAllocator::new(1, 4096, 128, 8);
    assert_eq!(a.total_blocks, 3);
    assert_eq!(a.allocate(), Some(PhysicalBlockId(0)));
    assert_eq!(a.allocate(), Some(PhysicalBlockId(1)));
    a.free(PhysicalBlockId(0));
    assert_eq!(a.allocate(), Some(PhysicalBlockId(2)));
    assert_eq!(a.allocate(), Some(PhysicalBlockId(0)));
    assert_eq!(a.allocate(), None);
}

#[test]
fn step_admits_in_order_until_blocks_run_out() {
    let mut s = ContinuousScheduler::new(BlockAllocator::new(1, 4096, 128, 8));
    s.add_sequence(1, "a".to_string(), vec![0; 40]);
    s.add_sequence(2, "b".to_string(), vec![0; 20]);
    s.add_sequence(3, "c".to_string(), vec![0; 1]);
    let ids = s.step();
    assert_eq!(ids, vec![SequenceId(1)]);
    assert_eq!(s.running[0].physical_blocks, vec![PhysicalBlockId(0), PhysicalBlockId(1), PhysicalBlockId(2)]);
    assert_eq!(s.running[0].state, SequenceState::Running);
    assert_eq!(s.waiting.len(), 2);
    assert_eq!(s.allocator.get_available_blocks(), 0);
}

#[test]
fn appended_tokens_take_a_block_at_each_boundary() {
    let mut s = ContinuousScheduler::new(BlockAllocator::new(1, 64, 128, 8));
    s.add_sequence(7, "p".to_string(), vec![1; 32]);
    assert_eq!(s.step(), vec![SequenceId(7)]);
    assert_eq!(s.running[0].physical_blocks.len(), 2);
    s.append_token(SequenceId(7), 5);
    assert_eq!(s.running[0].logical_token_ids.len(), 33);
    assert_eq!(s.running[0].physical_blocks.len(), 3);
    assert_eq!(s.allocator.get_available_blocks(), 227);
    s.append_token(SequenceId(99), 5);
    assert_eq!(s.running[0].logical_token_ids.len(), 33);
    let held: usize = s.running.iter().map(|q| q.physical_blocks.len()).sum();
    assert_eq!(held + s.allocator.get_available_blocks(), s.allocator.total_blocks);
}

#[test]
fn sequence_is_swapped_when_no_block_is_free() {
    let mut s = ContinuousScheduler::new(BlockAllocator::new(1, 4096, 128, 8));
    s.add_sequence(1, "a".to_string(), vec![0; 48]);
    assert_eq!(s.step(), vec![SequenceId(1)]);
    s.append_token(SequenceId(1), 9);
    assert_eq!(s.running[0].state, SequenceState::Swapped);
    assert_eq!(s.running[0].physical_blocks.len(), 3);
}
