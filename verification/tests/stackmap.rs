use icarus::stackmap::{GCMetadata, Safepoint, StackMap};

#[test]
fn test_safepoint_creation() {
    let sp = Safepoint { offset: 100, register_mask: 0b11, stack_slots: vec![0, 8] };
    assert_eq!(sp.offset, 100);
}

#[test]
fn test_stack_map_creation() {
    let mut sm = StackMap::new("test_func", 64);
    sm.register_safepoint(32, 0b11, vec![0, 8]);
    assert_eq!(sm.safepoints.len(), 1);
}

#[test]
fn test_gc_metadata() {
    let mut gc = GCMetadata::new();
    gc.mark_pointer("list");
    gc.mark_value("count");
    assert!(gc.is_pointer("list"));
    assert!(!gc.is_pointer("count"));
}

#[test]
fn stack_map_serializes_name_and_frame_size() {
    let mut sm = StackMap::new("main", 48);
    assert_eq!(sm.serialize(), "StackMap(main,frame_size=48)");
    sm.register_safepoint(4, 1, vec![]);
    sm.register_safepoint(8, 2, vec![-16]);
    assert_eq!(sm.safepoints[1].offset, 8);
    assert_eq!(sm.safepoints[1].stack_slots, vec![-16]);
    assert_eq!(StackMap::new("f", 0).serialize(), "StackMap(f,frame_size=0)");
}

#[test]
fn gc_metadata_last_mark_wins_and_unknown_is_no_pointer() {
    let mut gc = GCMetadata::new();
    assert!(!gc.is_pointer("x"));
    gc.mark_pointer("x");
    gc.mark_value("x");
    assert!(!gc.is_pointer("x"));
    gc.mark_pointer("x");
    assert!(gc.is_pointer("x"));
}
