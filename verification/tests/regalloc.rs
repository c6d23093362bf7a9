use icarus::regalloc::{ArithmeticEncoder, ConditionCode, Location, RegisterMap};

#[test]
fn test_register_map_alloc() {
    let mut map = RegisterMap::new();
    let r1 = map.alloc_var("x").unwrap();
    let r2 = map.alloc_var("y").unwrap();
    assert_ne!(r1, r2);
}

#[test]
fn test_arithmetic_encoder_emit() {
    let mut enc = ArithmeticEncoder::new();
    enc.emit_mov_imm(Location::Register(0), 42);
    assert_eq!(enc.len(), 8);
}

#[test]
fn registers_first_then_stack_slots() {
    let mut map = RegisterMap::new();
    for (i, name) in ["a", "b", "c", "d", "e", "f", "g", "h"].iter().enumerate() {
        assert_eq!(map.alloc_var(name).unwrap(), Location::Register(i as u8));
    }
    assert_eq!(map.stack_frame_bytes(), 0);
    assert_eq!(map.alloc_var("i").unwrap(), Location::Stack(-16));
    assert_eq!(map.stack_frame_bytes(), 16);
    assert_eq!(map.alloc_var("j").unwrap(), Location::Stack(-24));
    assert_eq!(map.stack_frame_bytes(), 32);
    // asking again gives the same place
    assert_eq!(map.alloc_var("c").unwrap(), Location::Register(2));
    assert_eq!(map.get("j"), Some(Location::Stack(-24)));
    assert_eq!(map.get("k"), None);
}

#[test]
fn freed_registers_are_reused_and_clear_resets() {
    let mut map = RegisterMap::new();
    let a = map.alloc_var("a").unwrap();
    map.alloc_var("b").unwrap();
    map.free(a);
    assert_eq!(map.alloc_var("c").unwrap(), Location::Register(0));
    map.clear();
    assert_eq!(map.get("b"), None);
    assert_eq!(map.alloc_var("z").unwrap(), Location::Register(0));
}

#[test]
fn moves_through_the_scratch_register() {
    let mut enc = ArithmeticEncoder::new();
    enc.emit_mov_imm(Location::Register(0), 42);
    let bytes = enc.into_bytes();
    assert_eq!(&bytes[0..4], &0xD2800549u32.to_le_bytes());
    assert_eq!(&bytes[4..8], &0x91000120u32.to_le_bytes());

    let mut enc = ArithmeticEncoder::new();
    enc.emit_mov_imm(Location::Register(9), 7);
    assert_eq!(enc.len(), 4);
}

#[test]
fn stack_slots_use_unscaled_offsets_or_a_computed_address() {
    let mut enc = ArithmeticEncoder::new();
    enc.emit_mov_imm(Location::Stack(-16), 1);
    assert_eq!(enc.len(), 8);

    let mut enc = ArithmeticEncoder::new();
    enc.emit_mov_imm(Location::Stack(-1000), 1);
    // mov x9; four words to build the address in x12; add; stur
    assert_eq!(enc.len(), 28);
}

#[test]
fn arithmetic_loads_both_operands() {
    let mut enc = ArithmeticEncoder::new();
    enc.emit_add(Location::Register(2), Location::Register(0), Location::Register(1));
    // mov x9, x0; mov x10, x1; add x9, x9, x10; mov x2, x9
    assert_eq!(enc.len(), 16);
    let bytes = enc.into_bytes();
    assert_eq!(&bytes[8..12], &0x8B0A0129u32.to_le_bytes());
}

#[test]
fn condition_codes_have_their_architectural_numbers() {
    assert_eq!(ConditionCode::Eq.to_bits(), 0b0000);
    assert_eq!(ConditionCode::Ne.to_bits(), 0b0001);
    assert_eq!(ConditionCode::Lt.to_bits(), 0b1011);
    assert_eq!(ConditionCode::Le.to_bits(), 0b1101);
    assert_eq!(ConditionCode::Gt.to_bits(), 0b1100);
    assert_eq!(ConditionCode::Ge.to_bits(), 0b1010);
}

#[test]
fn frame_after_many_distinct_allocations() {
    let mut map = RegisterMap::new();
    let names: Vec<String> = (0..20).map(|i| format!("v{}", i)).collect();
    for (k, name) in names.iter().enumerate() {
        map.alloc_var(name).unwrap();
        let k = k + 1;
        let expected = if k <= 8 { 0 } else { ((8 * (k - 7) + 15) / 16 * 16) as u16 };
        assert_eq!(map.stack_frame_bytes(), expected);
    }
    assert_eq!(map.stack_frame_bytes(), 112);
}
