use icarus::memory_table::{AllocationType, MemoryTable};

#[test]
fn test_allocation() {
    let mut table = MemoryTable::new();
    let id = table.allocate(AllocationType::String, 100);
    assert!(table.get_allocation(id).is_some());
}

#[test]
fn test_reference_counting() {
    let mut table = MemoryTable::new();
    let id = table.allocate(AllocationType::List, 50);
    table.increment_ref(id);
    assert_eq!(table.get_allocation(id).unwrap().references, 1);
    assert!(table.decrement_ref(id));
    assert!(!table.decrement_ref(id));
}

#[test]
fn test_garbage_collection() {
    let mut table = MemoryTable::new();
    let id1 = table.allocate(AllocationType::String, 100);
    let id2 = table.allocate(AllocationType::List, 200);
    table.increment_ref(id1);
    let collected = table.collect_garbage();
    assert!(collected.contains(&id2));
    assert!(!collected.contains(&id1));
}

#[test]
fn test_stack_frames() {
    let mut table = MemoryTable::new();
    table.push_frame(1, None);
    let id = table.allocate(AllocationType::Object, 300);
    let frame_allocs = table.pop_frame().unwrap();
    assert!(frame_allocs.contains(&id));
}

#[test]
fn ids_count_up_from_one_and_record_the_instruction() {
    let mut table = MemoryTable::new();
    table.increment_instruction();
    table.increment_instruction();
    assert_eq!(table.get_instruction_counter(), 2);
    let a = table.allocate(AllocationType::Mapping, 8);
    let b = table.allocate(AllocationType::Closure, 16);
    assert_eq!((a, b), (1, 2));
    let alloc = table.get_allocation(b).unwrap();
    assert_eq!(alloc.created_at, 2);
    assert_eq!(alloc.size, 16);
    assert_eq!(alloc.alloc_type, AllocationType::Closure);
    assert!(alloc.is_live);
    assert!(table.get_allocation(3).is_none());
    assert!(table.pop_frame().is_none());
}

#[test]
fn roots_survive_collection_and_block_release() {
    let mut table = MemoryTable::new();
    let a = table.allocate(AllocationType::String, 10);
    let b = table.allocate(AllocationType::String, 20);
    table.mark_root(a);
    table.mark_root(a);
    table.increment_ref(a);
    assert!(!table.decrement_ref(a));
    assert_eq!(table.stats().root_count, 1);
    assert_eq!(table.collect_garbage(), vec![b]);
    assert!(table.get_allocation(a).is_some());
    table.unmark_root(a);
    assert_eq!(table.collect_garbage(), vec![a]);
    assert_eq!(table.stats().total_allocations, 0);
    assert!(!table.decrement_ref(99));
}

#[test]
fn stats_sum_sizes_and_count_live_allocations() {
    let mut table = MemoryTable::new();
    table.push_frame(1, None);
    table.push_frame(2, Some(1));
    table.allocate(AllocationType::List, 100);
    table.allocate(AllocationType::List, 23);
    let stats = table.stats();
    assert_eq!(stats.total_allocations, 2);
    assert_eq!(stats.total_size, 123);
    assert_eq!(stats.live_allocations, 2);
    assert_eq!(stats.stack_depth, 2);
    assert_eq!(stats.root_count, 0);
}

#[test]
fn mark_and_sweep_keeps_what_the_roots_reach() {
    let mut table = MemoryTable::new();
    let a = table.allocate(AllocationType::Object, 1);
    let b = table.allocate(AllocationType::Object, 2);
    // fresh allocations are live: the first sweep only clears the marks
    assert!(table.sweep().is_empty());
    assert_eq!(table.stats().live_allocations, 0);
    table.mark_root(a);
    table.mark_reachable();
    assert_eq!(table.sweep(), vec![b]);
    assert!(table.get_allocation(a).is_some());
    assert!(table.get_allocation(b).is_none());
}

#[test]
fn each_garbage_id_is_reported_once() {
    let mut t = MemoryTable::new();
    let a = t.allocate(AllocationType::Object, 8);
    let b = t.allocate(AllocationType::List, 16);
    let c = t.allocate(AllocationType::String, 24);
    let d = t.allocate(AllocationType::Object, 32);
    t.increment_ref(b);
    t.mark_root(d);
    let collected = t.collect_garbage();
    assert_eq!(collected, vec![a, c]);
    assert!(t.get_allocation(a).is_none());
    assert!(t.get_allocation(b).is_some());
    assert!(t.get_allocation(c).is_none());
    assert!(t.get_allocation(d).is_some());
    assert_eq!(t.collect_garbage(), Vec::<u64>::new());
}
