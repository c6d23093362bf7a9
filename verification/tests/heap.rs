use icarus::heap::HeapAllocator;

#[test]
fn test_heap_allocator_list_alloc() {
    let code = HeapAllocator::emit_list_alloc(10);
    assert!(code.len() > 0);
}

#[test]
fn list_allocation_loads_the_byte_size_into_x0() {
    // 24-byte header plus 10 elements of 8 bytes: mov x0, #104
    assert_eq!(HeapAllocator::emit_list_alloc(10), 0xD2800D00u32.to_le_bytes().to_vec());
    assert_eq!(HeapAllocator::emit_list_alloc(0), 0xD2800300u32.to_le_bytes().to_vec());
    // the largest capacity whose size still fits 16 bits
    assert_eq!(HeapAllocator::emit_list_alloc(8188).len(), 4);
    assert!(HeapAllocator::emit_list_alloc(8189).is_empty());
    assert!(HeapAllocator::emit_list_store().is_empty());
    assert!(HeapAllocator::emit_list_load().is_empty());
}
