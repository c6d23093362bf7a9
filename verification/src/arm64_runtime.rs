//! The runtime routines every generated assembly file carries: printing,
//! reference counting, strings, lists, maps and the stubs of the routines
//! that are not available natively.

use vstd::prelude::*;
use crate::arm64_text::{Arm64CodeGen, push_line};
use crate::arm64_instr::{GenView, gen_view, label_at};
use crate::text::concat;

verus! {

/// Part 1 of the runtime routines, with its labels numbered from `l`.
pub open spec fn runtime_part_1(l: nat) -> Seq<Seq<char>> {
    seq![
        ""@,
        "_print_val:"@,
        "    stp x29, x30, [sp, #-32]!"@,
        "    str x19, [sp, #16]"@,
        "    mov x29, sp"@,
        "    mov x19, x0"@,
        "    cmp x19, #0x1000"@,
        "    b.hi .print_val_ptr"@,
        "    mov x0, x19"@,
        "    bl _print_num_no_nl"@,
        "    ldr x19, [sp, #16]"@,
        "    ldp x29, x30, [sp], #32"@,
        "    ret"@,
        ".print_val_ptr:"@,
        "    ldr x0, [x19, #0]"@,
        "    cmp x0, #1"@,
        "    b.eq .print_val_list"@,
        "    cmp x0, #2"@,
        "    b.eq .print_val_map"@,
        "    cmp x0, #3"@,
        "    b.eq .print_val_str"@,
        "    mov x0, x19"@,
        "    bl _print_str_no_nl"@,
        "    ldr x19, [sp, #16]"@,
        "    ldp x29, x30, [sp], #32"@,
        "    ret"@,
        ".print_val_str:"@,
        "    add x0, x19, #24"@,
        "    bl _print_str_no_nl"@,
        "    ldr x19, [sp, #16]"@,
    ]
}

/// Part 2 of the runtime routines, with its labels numbered from `l`.
pub open spec fn runtime_part_2(l: nat) -> Seq<Seq<char>> {
    seq![
        "    ldp x29, x30, [sp], #32"@,
        "    ret"@,
        ".print_val_list:"@,
        "    mov x0, x19"@,
        "    bl _print_list"@,
        "    ldr x19, [sp, #16]"@,
        "    ldp x29, x30, [sp], #32"@,
        "    ret"@,
        ".print_val_map:"@,
        "    mov x0, x19"@,
        "    bl _print_map"@,
        "    ldr x19, [sp, #16]"@,
        "    ldp x29, x30, [sp], #32"@,
        "    ret"@,
        ""@,
        "_inc_rc:"@,
        "    cbz x0, "@ + label_at(l + 0),
        "    cmp x0, #0x1000"@,
        "    b.lo "@ + label_at(l + 0),
        "    ldr x1, [x0, #8]"@,
        "    cmp x1, #0"@,
        "    b.lt "@ + label_at(l + 0),
        "    add x1, x1, #1"@,
        "    str x1, [x0, #8]"@,
        label_at(l + 0) + ":"@,
        "    ret"@,
        ""@,
        "_dec_rc:"@,
        "    cbz x0, "@ + label_at(l + 1),
        "    cmp x0, #0x1000"@,
        "    b.lo "@ + label_at(l + 1),
        "    ldr x1, [x0, #8]"@,
        "    cmp x1, #0"@,
        "    b.lt "@ + label_at(l + 1),
        "    sub x1, x1, #1"@,
        "    str x1, [x0, #8]"@,
        "    cbnz x1, "@ + label_at(l + 1),
        "    stp x29, x30, [sp, #-16]!"@,
        "    bl _gc_free"@,
        "    ldp x29, x30, [sp], #16"@,
        label_at(l + 1) + ":"@,
    ]
}

/// Part 3 of the runtime routines, with its labels numbered from `l`.
pub open spec fn runtime_part_3(l: nat) -> Seq<Seq<char>> {
    seq![
        "    ret"@,
        ""@,
        "_gc_free:"@,
        "    stp x29, x30, [sp, #-32]!"@,
        "    str x19, [sp, #16]"@,
        "    mov x29, sp"@,
        "    mov x19, x0"@,
        "    ldr x0, [x19, #0]"@,
        "    cmp x0, #1"@,
        "    b.eq .gc_free_list"@,
        "    cmp x0, #2"@,
        "    b.eq .gc_free_map"@,
        "    cmp x0, #4"@,
        "    b.eq .gc_free_struct"@,
        "    mov x0, x19"@,
        "    bl _free"@,
        "    ldr x19, [sp, #16]"@,
        "    ldp x29, x30, [sp], #32"@,
        "    ret"@,
        ".gc_free_list:"@,
        "    mov x0, x19"@,
        "    bl _free_list"@,
        "    ldr x19, [sp, #16]"@,
        "    ldp x29, x30, [sp], #32"@,
        "    ret"@,
        ".gc_free_map:"@,
        "    mov x0, x19"@,
        "    bl _free_map"@,
        "    ldr x19, [sp, #16]"@,
        "    ldp x29, x30, [sp], #32"@,
    ]
}

/// Part 4 of the runtime routines, with its labels numbered from `l`.
pub open spec fn runtime_part_4(l: nat) -> Seq<Seq<char>> {
    seq![
        "    ret"@,
        ".gc_free_struct:"@,
        "    mov x0, x19"@,
        "    bl _free_map"@,
        "    ldr x19, [sp, #16]"@,
        "    ldp x29, x30, [sp], #32"@,
        "    ret"@,
        ""@,
        "_free_list:"@,
        "    stp x29, x30, [sp, #-48]!"@,
        "    stp x20, x21, [sp, #16]"@,
        "    stp x22, x19, [sp, #32]"@,
        "    mov x29, sp"@,
        "    ldr x20, [x19, #16]"@,
        "    ldr x21, [x19, #24]"@,
        "    mov x22, #0"@,
        ".free_list_loop:"@,
        "    cmp x22, x20"@,
        "    b.ge .free_list_done"@,
        "    ldr x0, [x21, x22, lsl #3]"@,
        "    bl _dec_rc"@,
        "    add x22, x22, #1"@,
        "    b .free_list_loop"@,
        ".free_list_done:"@,
        "    mov x0, x21"@,
        "    bl _free"@,
        "    mov x0, x19"@,
        "    bl _free"@,
        "    ldp x22, x19, [sp, #32]"@,
        "    ldp x20, x21, [sp, #16]"@,
    ]
}

/// Part 5 of the runtime routines, with its labels numbered from `l`.
pub open spec fn runtime_part_5(l: nat) -> Seq<Seq<char>> {
    seq![
        "    ldp x29, x30, [sp], #48"@,
        "    ret"@,
        ""@,
        "_free_map:"@,
        "    stp x29, x30, [sp, #-48]!"@,
        "    stp x20, x21, [sp, #16]"@,
        "    stp x22, x19, [sp, #32]"@,
        "    mov x29, sp"@,
        "    ldr x20, [x19, #16]"@,
        "    ldr x21, [x19, #24]"@,
        "    mov x22, #0"@,
        ".free_map_loop:"@,
        "    cmp x22, x20"@,
        "    b.ge .free_map_done"@,
        "    lsl x23, x22, #4"@,
        "    add x23, x21, x23"@,
        "    ldr x0, [x23, #0]"@,
        "    bl _dec_rc"@,
        "    lsl x23, x22, #4"@,
        "    add x23, x21, x23"@,
        "    ldr x0, [x23, #8]"@,
        "    bl _dec_rc"@,
        "    add x22, x22, #1"@,
        "    b .free_map_loop"@,
        ".free_map_done:"@,
        "    mov x0, x21"@,
        "    bl _free"@,
        "    mov x0, x19"@,
        "    bl _free"@,
        "    ldp x22, x19, [sp, #32]"@,
    ]
}

/// Part 6 of the runtime routines, with its labels numbered from `l`.
pub open spec fn runtime_part_6(l: nat) -> Seq<Seq<char>> {
    seq![
        "    ldp x20, x21, [sp, #16]"@,
        "    ldp x29, x30, [sp], #48"@,
        "    ret"@,
        ""@,
        "_print_num_no_nl:"@,
        "    stp x29, x30, [sp, #-16]!"@,
        "    mov x0, x0"@,
        "    mov x1, x0"@,
        "    sub sp, sp, #16"@,
        "    str x1, [sp, #0]"@,
        "    adrp x0, .fmt_int_raw@PAGE"@,
        "    add x0, x0, .fmt_int_raw@PAGEOFF"@,
        "    bl _printf"@,
        "    add sp, sp, #16"@,
        "    mov x0, #0"@,
        "    bl _fflush"@,
        "    ldp x29, x30, [sp], #16"@,
        "    ret"@,
        ""@,
        "_print_str_no_nl:"@,
        "    stp x29, x30, [sp, #-16]!"@,
        "    mov x1, x0"@,
        "    mov x2, #0"@,
        label_at(l + 0) + ":"@,
        "    ldrb w3, [x1, x2]"@,
        "    cbz w3, "@ + label_at(l + 1),
        "    add x2, x2, #1"@,
        "    b "@ + label_at(l + 0),
        label_at(l + 1) + ":"@,
        "    mov x0, #1"@,
    ]
}

/// Part 7 of the runtime routines, with its labels numbered from `l`.
pub open spec fn runtime_part_7(l: nat) -> Seq<Seq<char>> {
    seq![
        "    mov x16, #4"@,
        "    svc #0x80"@,
        "    ldp x29, x30, [sp], #16"@,
        "    ret"@,
        ""@,
        "_print_list:"@,
        "    stp x29, x30, [sp, #-48]!"@,
        "    mov x29, sp"@,
        "    stp x19, x20, [sp, #16]"@,
        "    stp x21, x22, [sp, #32]"@,
        "    mov x19, x0"@,
        "    adrp x1, .list_start@PAGE"@,
        "    add x1, x1, .list_start@PAGEOFF"@,
        "    mov x2, #1"@,
        "    mov x0, #1"@,
        "    mov x16, #4"@,
        "    svc #0x80"@,
        "    ldr x20, [x19, #16]"@,
        "    ldr x21, [x19, #24]"@,
        "    mov x22, #0"@,
        ".print_list_loop:"@,
        "    cmp x22, x20"@,
        "    b.ge .print_list_done"@,
        "    cbz x22, "@ + label_at(l + 0),
        "    adrp x1, .comma_space@PAGE"@,
        "    add x1, x1, .comma_space@PAGEOFF"@,
        "    mov x2, #2"@,
        "    mov x0, #1"@,
        "    mov x16, #4"@,
        "    svc #0x80"@,
        label_at(l + 0) + ":"@,
    ]
}

/// Part 8 of the runtime routines, with its labels numbered from `l`.
pub open spec fn runtime_part_8(l: nat) -> Seq<Seq<char>> {
    seq![
        "    stp x19, x20, [sp, #16]"@,
        "    stp x21, x22, [sp, #32]"@,
        "    ldr x0, [x21, x22, lsl #3]"@,
        "    bl _print_val"@,
        "    ldp x21, x22, [sp, #32]"@,
        "    ldp x19, x20, [sp, #16]"@,
        "    add x22, x22, #1"@,
        "    b .print_list_loop"@,
        ".print_list_done:"@,
        "    adrp x1, .list_end@PAGE"@,
        "    add x1, x1, .list_end@PAGEOFF"@,
        "    mov x2, #1"@,
        "    mov x0, #1"@,
        "    mov x16, #4"@,
        "    svc #0x80"@,
        "    ldp x21, x22, [sp, #32]"@,
        "    ldp x19, x20, [sp, #16]"@,
        "    ldp x29, x30, [sp], #48"@,
        "    ret"@,
        ""@,
        "_print_map:"@,
        "    stp x29, x30, [sp, #-48]!"@,
        "    mov x29, sp"@,
        "    stp x19, x20, [sp, #16]"@,
        "    stp x21, x22, [sp, #32]"@,
        "    mov x19, x0"@,
        "    adrp x1, .map_start@PAGE"@,
        "    add x1, x1, .map_start@PAGEOFF"@,
        "    mov x2, #1"@,
        "    mov x0, #1"@,
    ]
}

/// Part 9 of the runtime routines, with its labels numbered from `l`.
pub open spec fn runtime_part_9(l: nat) -> Seq<Seq<char>> {
    seq![
        "    mov x16, #4"@,
        "    svc #0x80"@,
        "    ldr x20, [x19, #16]"@,
        "    ldr x21, [x19, #24]"@,
        "    mov x22, #0"@,
        ".print_map_loop:"@,
        "    cmp x22, x20"@,
        "    b.ge .print_map_done"@,
        "    cbz x22, "@ + label_at(l + 0),
        "    adrp x1, .comma_space@PAGE"@,
        "    add x1, x1, .comma_space@PAGEOFF"@,
        "    mov x2, #2"@,
        "    mov x0, #1"@,
        "    mov x16, #4"@,
        "    svc #0x80"@,
        label_at(l + 0) + ":"@,
        "    stp x19, x20, [sp, #16]"@,
        "    stp x21, x22, [sp, #32]"@,
        "    lsl x25, x22, #4"@,
        "    ldr x0, [x21, x25]"@,
        "    bl _print_val"@,
        "    adrp x1, .colon_space@PAGE"@,
        "    add x1, x1, .colon_space@PAGEOFF"@,
        "    mov x2, #2"@,
        "    mov x0, #1"@,
        "    mov x16, #4"@,
        "    svc #0x80"@,
        "    ldp x21, x22, [sp, #32]"@,
        "    lsl x25, x22, #4"@,
        "    add x25, x21, x25"@,
    ]
}

/// Part 10 of the runtime routines, with its labels numbered from `l`.
pub open spec fn runtime_part_10(l: nat) -> Seq<Seq<char>> {
    seq![
        "    ldr x0, [x25, #8]"@,
        "    stp x21, x22, [sp, #32]"@,
        "    bl _print_val"@,
        "    ldp x21, x22, [sp, #32]"@,
        "    ldp x19, x20, [sp, #16]"@,
        "    add x22, x22, #1"@,
        "    b .print_map_loop"@,
        ".print_map_done:"@,
        "    adrp x1, .map_end@PAGE"@,
        "    add x1, x1, .map_end@PAGEOFF"@,
        "    mov x2, #1"@,
        "    mov x0, #1"@,
        "    mov x16, #4"@,
        "    svc #0x80"@,
        "    ldp x21, x22, [sp, #32]"@,
        "    ldp x19, x20, [sp, #16]"@,
        "    ldp x29, x30, [sp], #48"@,
        "    ret"@,
        ""@,
        "_print_num:"@,
        "    stp x29, x30, [sp, #-16]!"@,
        "    mov x29, sp"@,
        "    sub sp, sp, #16"@,
        "    str x1, [sp, #0]"@,
        "    adrp x0, .fmt_int@PAGE"@,
        "    add x0, x0, .fmt_int@PAGEOFF"@,
        "    bl _printf"@,
        "    add sp, sp, #16"@,
        "    mov x0, #0"@,
        "    bl _fflush"@,
    ]
}

/// Part 11 of the runtime routines, with its labels numbered from `l`.
pub open spec fn runtime_part_11(l: nat) -> Seq<Seq<char>> {
    seq![
        "    ldp x29, x30, [sp], #16"@,
        "    ret"@,
        ""@,
        "_len:"@,
        "    stp x29, x30, [sp, #-16]!"@,
        "    cbz x0, .len_null"@,
        "    ldr x0, [x0, #16]"@,
        "    ldp x29, x30, [sp], #16"@,
        "    ret"@,
        ".len_null:"@,
        "    mov x0, #0"@,
        "    ldp x29, x30, [sp], #16"@,
        "    ret"@,
        ""@,
        "_is_map:"@,
        "    cbz x0, .is_map_no"@,
        "    cmp x0, #0x1000"@,
        "    b.lo .is_map_no"@,
        "    ldr x1, [x0, #0]"@,
        "    cmp x1, #2"@,
        "    cset x0, eq"@,
        "    ret"@,
        ".is_map_no:"@,
        "    mov x0, #0"@,
        "    ret"@,
        ""@,
        "_is_list:"@,
        "    cbz x0, .is_list_no"@,
        "    cmp x0, #0x1000"@,
        "    b.lo .is_list_no"@,
    ]
}

/// Part 12 of the runtime routines, with its labels numbered from `l`.
pub open spec fn runtime_part_12(l: nat) -> Seq<Seq<char>> {
    seq![
        "    ldr x1, [x0, #0]"@,
        "    cmp x1, #1"@,
        "    cset x0, eq"@,
        "    ret"@,
        ".is_list_no:"@,
        "    mov x0, #0"@,
        "    ret"@,
        ""@,
        "_is_string:"@,
        "    cbz x0, .is_string_no"@,
        "    cmp x0, #0x1000"@,
        "    b.lo .is_string_no"@,
        "    ldr x1, [x0, #0]"@,
        "    cmp x1, #3"@,
        "    cset x0, eq"@,
        "    ret"@,
        ".is_string_no:"@,
        "    mov x0, #0"@,
        "    ret"@,
        ""@,
        "_type:"@,
        "    cbz x0, .type_null"@,
        "    cmp x0, #0x1000"@,
        "    b.lo .type_number"@,
        "    ldr x1, [x0, #0]"@,
        "    cmp x1, #1"@,
        "    b.eq .type_list"@,
        "    cmp x1, #2"@,
        "    b.eq .type_map"@,
        "    cmp x1, #3"@,
    ]
}

/// Part 13 of the runtime routines, with its labels numbered from `l`.
pub open spec fn runtime_part_13(l: nat) -> Seq<Seq<char>> {
    seq![
        "    b.eq .type_string"@,
        "    cmp x1, #4"@,
        "    b.eq .type_struct"@,
        "    b .type_object"@,
        ".type_number:"@,
        "    adrp x0, .t_number@PAGE"@,
        "    add x0, x0, .t_number@PAGEOFF"@,
        "    ret"@,
        ".type_string:"@,
        "    adrp x0, .t_string@PAGE"@,
        "    add x0, x0, .t_string@PAGEOFF"@,
        "    ret"@,
        ".type_list:"@,
        "    adrp x0, .t_list@PAGE"@,
        "    add x0, x0, .t_list@PAGEOFF"@,
        "    ret"@,
        ".type_map:"@,
        "    adrp x0, .t_map@PAGE"@,
        "    add x0, x0, .t_map@PAGEOFF"@,
        "    ret"@,
        ".type_struct:"@,
        "    adrp x0, .t_struct@PAGE"@,
        "    add x0, x0, .t_struct@PAGEOFF"@,
        "    ret"@,
        ".type_null:"@,
        "    adrp x0, .t_null@PAGE"@,
        "    add x0, x0, .t_null@PAGEOFF"@,
        "    ret"@,
        ".type_object:"@,
        "    adrp x0, .t_object@PAGE"@,
    ]
}

/// Part 14 of the runtime routines, with its labels numbered from `l`.
pub open spec fn runtime_part_14(l: nat) -> Seq<Seq<char>> {
    seq![
        "    add x0, x0, .t_object@PAGEOFF"@,
        "    ret"@,
        ""@,
        "_bool:"@,
        "    cbz x0, .bool_false"@,
        "    cmp x0, #0x1000"@,
        "    b.lo .bool_num"@,
        "    ldr x1, [x0, #0]"@,
        "    cmp x1, #1"@,
        "    b.eq .bool_lencheck"@,
        "    cmp x1, #2"@,
        "    b.eq .bool_lencheck"@,
        "    cmp x1, #3"@,
        "    b.eq .bool_lencheck"@,
        "    mov x0, #1"@,
        "    ret"@,
        ".bool_lencheck:"@,
        "    ldr x2, [x0, #16]"@,
        "    cmp x2, #0"@,
        "    cset x0, ne"@,
        "    ret"@,
        ".bool_num:"@,
        "    cmp x0, #0"@,
        "    cset x0, ne"@,
        "    ret"@,
        ".bool_false:"@,
        "    mov x0, #0"@,
        "    ret"@,
        ""@,
        "_num:"@,
    ]
}

/// Part 15 of the runtime routines, with its labels numbered from `l`.
pub open spec fn runtime_part_15(l: nat) -> Seq<Seq<char>> {
    seq![
        "    cbz x0, .num_zero"@,
        "    cmp x0, #0x1000"@,
        "    b.lo .num_ret"@,
        "    ldr x1, [x0, #0]"@,
        "    cmp x1, #3"@,
        "    b.ne .num_zero"@,
        "    add x1, x0, #24"@,
        "    mov x2, #0"@,
        "    mov x3, #0"@,
        "    ldrb w4, [x1]"@,
        "    cmp w4, #45"@,
        "    b.ne .num_loop"@,
        "    mov x3, #1"@,
        "    add x1, x1, #1"@,
        ".num_loop:"@,
        "    ldrb w4, [x1]"@,
        "    cbz w4, .num_done"@,
        "    cmp w4, #48"@,
        "    b.lt .num_done"@,
        "    cmp w4, #57"@,
        "    b.gt .num_done"@,
        "    sub w5, w4, #48"@,
        "    mov x6, #10"@,
        "    mul x2, x2, x6"@,
        "    uxtw x5, w5"@,
        "    add x2, x2, x5"@,
        "    add x1, x1, #1"@,
        "    b .num_loop"@,
        ".num_done:"@,
        "    cbz x3, .num_pos"@,
    ]
}

/// Part 16 of the runtime routines, with its labels numbered from `l`.
pub open spec fn runtime_part_16(l: nat) -> Seq<Seq<char>> {
    seq![
        "    neg x2, x2"@,
        ".num_pos:"@,
        "    mov x0, x2"@,
        "    ret"@,
        ".num_zero:"@,
        "    mov x0, #0"@,
        "    ret"@,
        ".num_ret:"@,
        "    ret"@,
        ""@,
        "_str:"@,
        "    stp x29, x30, [sp, #-96]!"@,
        "    mov x29, sp"@,
        "    stp x19, x20, [sp, #16]"@,
        "    stp x21, x22, [sp, #32]"@,
        "    stp x23, x24, [sp, #48]"@,
        "    stp x25, x26, [sp, #64]"@,
        "    stp x27, x28, [sp, #80]"@,
        "    cbz x0, .str_null"@,
        "    cmp x0, #0x1000"@,
        "    b.lo .str_from_num"@,
        "    ldr x1, [x0, #0]"@,
        "    cmp x1, #3"@,
        "    b.eq .str_ret"@,
        "    b .str_object"@,
        ".str_ret:"@,
        "    b .str_epilogue"@,
        ".str_null:"@,
        "    adrp x0, .t_null@PAGE"@,
        "    add x0, x0, .t_null@PAGEOFF"@,
    ]
}

/// Part 17 of the runtime routines, with its labels numbered from `l`.
pub open spec fn runtime_part_17(l: nat) -> Seq<Seq<char>> {
    seq![
        "    b .str_epilogue"@,
        ".str_object:"@,
        "    adrp x0, .t_object@PAGE"@,
        "    add x0, x0, .t_object@PAGEOFF"@,
        "    b .str_epilogue"@,
        ".str_from_num:"@,
        "    mov x20, x0"@,
        "    mov x0, #288"@,
        "    bl _malloc"@,
        "    mov x19, x0"@,
        "    mov x0, #3"@,
        "    str x0, [x19, #0]"@,
        "    mov x0, #1"@,
        "    str x0, [x19, #8]"@,
        "    add x21, x19, #24"@,
        "    add x22, x21, #255"@,
        "    mov x23, #0"@,
        "    mov x24, x20"@,
        "    mov x25, #0"@,
        "    cmp x24, #0"@,
        "    b.ge .itoa_abs"@,
        "    neg x24, x24"@,
        "    mov x25, #1"@,
        ".itoa_abs:"@,
        "    cbnz x24, .itoa_loop"@,
        "    mov w0, #48"@,
        "    strb w0, [x22]"@,
        "    sub x22, x22, #1"@,
        "    add x23, x23, #1"@,
        "    b .itoa_done_digits"@,
    ]
}

/// Part 18 of the runtime routines, with its labels numbered from `l`.
pub open spec fn runtime_part_18(l: nat) -> Seq<Seq<char>> {
    seq![
        ".itoa_loop:"@,
        "    mov x26, #10"@,
        "    udiv x27, x24, x26"@,
        "    msub x28, x27, x26, x24"@,
        "    add x28, x28, #48"@,
        "    strb w28, [x22]"@,
        "    sub x22, x22, #1"@,
        "    add x23, x23, #1"@,
        "    mov x24, x27"@,
        "    cbnz x24, .itoa_loop"@,
        ".itoa_done_digits:"@,
        "    cbz x25, .itoa_copy"@,
        "    mov w0, #45"@,
        "    strb w0, [x22]"@,
        "    sub x22, x22, #1"@,
        "    add x23, x23, #1"@,
        ".itoa_copy:"@,
        "    add x22, x22, #1"@,
        "    mov x24, #0"@,
        ".itoa_copy_loop:"@,
        "    cmp x24, x23"@,
        "    b.ge .itoa_copy_done"@,
        "    ldrb w0, [x22, x24]"@,
        "    strb w0, [x21, x24]"@,
        "    add x24, x24, #1"@,
        "    b .itoa_copy_loop"@,
        ".itoa_copy_done:"@,
        "    add x0, x21, x23"@,
        "    mov w1, #0"@,
        "    strb w1, [x0]"@,
    ]
}

/// Part 19 of the runtime routines, with its labels numbered from `l`.
pub open spec fn runtime_part_19(l: nat) -> Seq<Seq<char>> {
    seq![
        "    str x23, [x19, #16]"@,
        "    mov x0, x19"@,
        "    b .str_epilogue"@,
        ".str_epilogue:"@,
        "    ldp x27, x28, [sp, #80]"@,
        "    ldp x25, x26, [sp, #64]"@,
        "    ldp x23, x24, [sp, #48]"@,
        "    ldp x21, x22, [sp, #32]"@,
        "    ldp x19, x20, [sp, #16]"@,
        "    ldp x29, x30, [sp], #96"@,
        "    ret"@,
        ""@,
        "_set_struct_member:"@,
        "    b _set_map_generic"@,
        ""@,
        "_get_struct_member:"@,
        "    b _get_map_generic"@,
        ""@,
        "_set_map_generic:"@,
        "    stp x29, x30, [sp, #-48]!"@,
        "    stp x19, x20, [sp, #16]"@,
        "    stp x21, x22, [sp, #32]"@,
        "    mov x19, x0"@,
        "    mov x20, x1"@,
        "    mov x21, x2"@,
        "    ldr x22, [x19, #16]"@,
        "    ldr x23, [x19, #24]"@,
        "    mov x0, x20"@,
        "    bl _inc_rc"@,
        "    mov x0, x21"@,
    ]
}

/// Part 20 of the runtime routines, with its labels numbered from `l`.
pub open spec fn runtime_part_20(l: nat) -> Seq<Seq<char>> {
    seq![
        "    bl _inc_rc"@,
        "    add x24, x22, #1"@,
        "    lsl x0, x24, #4"@,
        "    mov x25, x0"@,
        "    mov x0, x23"@,
        "    mov x1, x25"@,
        "    bl _realloc"@,
        "    str x0, [x19, #24]"@,
        "    mov x23, x0"@,
        "    lsl x26, x22, #4"@,
        "    add x27, x23, x26"@,
        "    str x20, [x27, #0]"@,
        "    str x21, [x27, #8]"@,
        "    str x24, [x19, #16]"@,
        "    ldp x21, x22, [sp, #32]"@,
        "    ldp x19, x20, [sp, #16]"@,
        "    ldp x29, x30, [sp], #48"@,
        "    ret"@,
        ""@,
        "_get_map_generic:"@,
        "    stp x29, x30, [sp, #-48]!"@,
        "    stp x19, x20, [sp, #16]"@,
        "    stp x21, x22, [sp, #32]"@,
        "    mov x19, x0"@,
        "    mov x20, x1"@,
        "    ldr x21, [x19, #16]"@,
        "    ldr x22, [x19, #24]"@,
        "    mov x23, #0"@,
        ".get_map_loop:"@,
        "    cmp x23, x21"@,
    ]
}

/// Part 21 of the runtime routines, with its labels numbered from `l`.
pub open spec fn runtime_part_21(l: nat) -> Seq<Seq<char>> {
    seq![
        "    b.ge .get_map_not_found"@,
        "    lsl x24, x23, #4"@,
        "    add x24, x22, x24"@,
        "    ldr x0, [x24, #0]"@,
        "    mov x1, x20"@,
        "    bl _strcmp"@,
        "    cbz x0, .get_map_found"@,
        "    add x23, x23, #1"@,
        "    b .get_map_loop"@,
        ".get_map_found:"@,
        "    lsl x24, x23, #4"@,
        "    add x24, x22, x24"@,
        "    ldr x0, [x24, #8]"@,
        "    ldp x21, x22, [sp, #32]"@,
        "    ldp x19, x20, [sp, #16]"@,
        "    ldp x29, x30, [sp], #48"@,
        "    ret"@,
        ".get_map_not_found:"@,
        "    mov x0, #0"@,
        "    ldp x21, x22, [sp, #32]"@,
        "    ldp x19, x20, [sp, #16]"@,
        "    ldp x29, x30, [sp], #48"@,
        "    ret"@,
        ""@,
        "_strcmp:"@,
        label_at(l + 0) + ":"@,
        "    ldrb w2, [x0]"@,
        "    ldrb w3, [x1]"@,
        "    cmp w2, w3"@,
        "    b.ne "@ + label_at(l + 1),
        "    cbz w2, "@ + label_at(l + 2),
        "    add x0, x0, #1"@,
        "    add x1, x1, #1"@,
        "    b "@ + label_at(l + 0),
        label_at(l + 1) + ":"@,
        "    mov x0, #1"@,
        "    ret"@,
        label_at(l + 2) + ":"@,
    ]
}

/// Part 22 of the runtime routines, with its labels numbered from `l`.
pub open spec fn runtime_part_22(l: nat) -> Seq<Seq<char>> {
    seq![
        "    mov x0, #0"@,
        "    ret"@,
        ""@,
        "_keys:"@,
        "    stp x29, x30, [sp, #-64]!"@,
        "    stp x19, x20, [sp, #16]"@,
        "    stp x21, x22, [sp, #32]"@,
        "    stp x23, x24, [sp, #48]"@,
        "    mov x29, sp"@,
        "    cbz x0, .keys_null"@,
        "    ldr x19, [x0, #16]"@,
        "    ldr x20, [x0, #24]"@,
        "    mov x21, x19"@,
        "    mov x0, #32"@,
        "    bl _malloc"@,
        "    mov x22, x0"@,
        "    mov x25, #1"@,
        "    str x25, [x22, #0]"@,
        "    mov x25, #1"@,
        "    str x25, [x22, #8]"@,
        "    str x21, [x22, #16]"@,
        "    lsl x0, x21, #3"@,
        "    bl _malloc"@,
        "    str x0, [x22, #24]"@,
        "    mov x23, x0"@,
        "    mov x24, #0"@,
        ".keys_loop:"@,
        "    cmp x24, x21"@,
        "    b.ge .keys_done"@,
        "    lsl x25, x24, #4"@,
    ]
}

/// Part 23 of the runtime routines, with its labels numbered from `l`.
pub open spec fn runtime_part_23(l: nat) -> Seq<Seq<char>> {
    seq![
        "    ldr x0, [x20, x25]"@,
        "    bl _inc_rc"@,
        "    lsl x25, x24, #3"@,
        "    str x0, [x23, x25]"@,
        "    add x24, x24, #1"@,
        "    b .keys_loop"@,
        ".keys_done:"@,
        "    mov x0, x22"@,
        "    ldp x23, x24, [sp, #48]"@,
        "    ldp x21, x22, [sp, #32]"@,
        "    ldp x19, x20, [sp, #16]"@,
        "    ldp x29, x30, [sp], #64"@,
        "    ret"@,
        ".keys_null:"@,
        "    mov x0, #0"@,
        "    ldp x23, x24, [sp, #48]"@,
        "    ldp x21, x22, [sp, #32]"@,
        "    ldp x19, x20, [sp, #16]"@,
        "    ldp x29, x30, [sp], #64"@,
        "    ret"@,
        ""@,
        "_range:"@,
        "    stp x29, x30, [sp, #-48]!"@,
        "    stp x19, x20, [sp, #16]"@,
        "    stp x21, x22, [sp, #32]"@,
        "    mov x29, sp"@,
        "    sub x21, x1, x0"@,
        "    cmp x21, #0"@,
        "    b.lt .range_empty"@,
        "    mov x19, x0"@,
    ]
}

/// Part 24 of the runtime routines, with its labels numbered from `l`.
pub open spec fn runtime_part_24(l: nat) -> Seq<Seq<char>> {
    seq![
        "    mov x20, x1"@,
        "    mov x0, #32"@,
        "    bl _malloc"@,
        "    mov x22, x0"@,
        "    mov x25, #1"@,
        "    str x25, [x22, #0]"@,
        "    mov x25, #1"@,
        "    str x25, [x22, #8]"@,
        "    str x21, [x22, #16]"@,
        "    lsl x0, x21, #3"@,
        "    bl _malloc"@,
        "    str x0, [x22, #24]"@,
        "    mov x23, x0"@,
        "    mov x24, #0"@,
        ".range_loop:"@,
        "    cmp x24, x21"@,
        "    b.ge .range_done"@,
        "    add x25, x19, x24"@,
        "    lsl x26, x24, #3"@,
        "    str x25, [x23, x26]"@,
        "    add x24, x24, #1"@,
        "    b .range_loop"@,
        ".range_done:"@,
        "    mov x0, x22"@,
        "    ldp x21, x22, [sp, #32]"@,
        "    ldp x19, x20, [sp, #16]"@,
        "    ldp x29, x30, [sp], #48"@,
        "    ret"@,
        ".range_empty:"@,
        "    mov x0, #0"@,
    ]
}

/// Part 25 of the runtime routines, with its labels numbered from `l`.
pub open spec fn runtime_part_25(l: nat) -> Seq<Seq<char>> {
    seq![
        "    ldp x21, x22, [sp, #32]"@,
        "    ldp x19, x20, [sp, #16]"@,
        "    ldp x29, x30, [sp], #48"@,
        "    ret"@,
        ""@,
        "_values:"@,
        "    stp x29, x30, [sp, #-64]!"@,
        "    stp x19, x20, [sp, #16]"@,
        "    stp x21, x22, [sp, #32]"@,
        "    stp x23, x24, [sp, #48]"@,
        "    mov x29, sp"@,
        "    cbz x0, .values_null"@,
        "    ldr x19, [x0, #16]"@,
        "    ldr x20, [x0, #24]"@,
        "    mov x21, x19"@,
        "    mov x0, #32"@,
        "    bl _malloc"@,
        "    mov x22, x0"@,
        "    mov x25, #1"@,
        "    str x25, [x22, #0]"@,
        "    mov x25, #1"@,
        "    str x25, [x22, #8]"@,
        "    str x21, [x22, #16]"@,
        "    lsl x0, x21, #3"@,
        "    bl _malloc"@,
        "    str x0, [x22, #24]"@,
        "    mov x23, x0"@,
        "    mov x24, #0"@,
        ".values_loop:"@,
        "    cmp x24, x21"@,
    ]
}

/// Part 26 of the runtime routines, with its labels numbered from `l`.
pub open spec fn runtime_part_26(l: nat) -> Seq<Seq<char>> {
    seq![
        "    b.ge .values_done"@,
        "    lsl x25, x24, #4"@,
        "    add x25, x20, x25"@,
        "    ldr x0, [x25, #8]"@,
        "    bl _inc_rc"@,
        "    lsl x25, x24, #3"@,
        "    str x0, [x23, x25]"@,
        "    add x24, x24, #1"@,
        "    b .values_loop"@,
        ".values_done:"@,
        "    mov x0, x22"@,
        "    ldp x23, x24, [sp, #48]"@,
        "    ldp x21, x22, [sp, #32]"@,
        "    ldp x19, x20, [sp, #16]"@,
        "    ldp x29, x30, [sp], #64"@,
        "    ret"@,
        ".values_null:"@,
        "    mov x0, #0"@,
        "    ldp x23, x24, [sp, #48]"@,
        "    ldp x21, x22, [sp, #32]"@,
        "    ldp x19, x20, [sp, #16]"@,
        "    ldp x29, x30, [sp], #64"@,
        "    ret"@,
        ""@,
        "_get_index:"@,
        "    stp x29, x30, [sp, #-64]!"@,
        "    stp x19, x20, [sp, #16]"@,
        "    stp x21, x22, [sp, #32]"@,
        "    stp x23, x24, [sp, #48]"@,
        "    mov x29, sp"@,
    ]
}

/// Part 27 of the runtime routines, with its labels numbered from `l`.
pub open spec fn runtime_part_27(l: nat) -> Seq<Seq<char>> {
    seq![
        "    cbz x0, .get_null"@,
        "    mov x19, x0"@,
        "    mov x20, x1"@,
        "    ldr x0, [x19, #0]"@,
        "    cmp x0, #1"@,
        "    b.eq .get_list"@,
        "    cmp x0, #2"@,
        "    b.eq .get_map"@,
        "    b .get_null"@,
        ".get_list:"@,
        "    ldr x2, [x19, #16]"@,
        "    cmp x20, x2"@,
        "    b.ge .get_null"@,
        "    ldr x2, [x19, #24]"@,
        "    ldr x0, [x2, x20, lsl #3]"@,
        "    bl _inc_rc"@,
        "    ldp x23, x24, [sp, #48]"@,
        "    ldp x21, x22, [sp, #32]"@,
        "    ldp x19, x20, [sp, #16]"@,
        "    ldp x29, x30, [sp], #64"@,
        "    ret"@,
        ".get_map:"@,
        "    ldr x21, [x19, #16]"@,
        "    ldr x22, [x19, #24]"@,
        "    mov x23, #0"@,
        ".map_get_loop:"@,
        "    cmp x23, x21"@,
        "    b.ge .get_null"@,
        "    lsl x24, x23, #4"@,
        "    add x24, x22, x24"@,
    ]
}

/// Part 28 of the runtime routines, with its labels numbered from `l`.
pub open spec fn runtime_part_28(l: nat) -> Seq<Seq<char>> {
    seq![
        "    ldr x0, [x24, #0]"@,
        "    mov x1, x20"@,
        "    cmp x0, x1"@,
        "    b.eq .map_get_found"@,
        "    cmp x0, #0x1000"@,
        "    b.lo .map_get_next"@,
        "    cmp x1, #0x1000"@,
        "    b.lo .map_get_next"@,
        "    ldr x2, [x0, #0]"@,
        "    cmp x2, #3"@,
        "    b.ne .map_get_next"@,
        "    ldr x2, [x1, #0]"@,
        "    cmp x2, #3"@,
        "    b.ne .map_get_next"@,
        "    add x0, x0, #24"@,
        "    add x1, x1, #24"@,
        "    bl _strcmp"@,
        "    cbz x0, .map_get_found"@,
        ".map_get_next:"@,
        "    add x23, x23, #1"@,
        "    b .map_get_loop"@,
        ".map_get_found:"@,
        "    lsl x24, x23, #4"@,
        "    add x24, x22, x24"@,
        "    ldr x0, [x24, #8]"@,
        "    bl _inc_rc"@,
        "    ldp x23, x24, [sp, #48]"@,
        "    ldp x21, x22, [sp, #32]"@,
        "    ldp x19, x20, [sp, #16]"@,
        "    ldp x29, x30, [sp], #64"@,
    ]
}

/// Part 29 of the runtime routines, with its labels numbered from `l`.
pub open spec fn runtime_part_29(l: nat) -> Seq<Seq<char>> {
    seq![
        "    ret"@,
        ".get_null:"@,
        "    mov x0, #0"@,
        "    ldp x23, x24, [sp, #48]"@,
        "    ldp x21, x22, [sp, #32]"@,
        "    ldp x19, x20, [sp, #16]"@,
        "    ldp x29, x30, [sp], #64"@,
        "    ret"@,
        ""@,
        "_spawn:"@,
        "    // Async spawn not implemented in native codegen yet"@,
        "    ret"@,
        ""@,
        "_await:"@,
        "    // Async await not implemented in native codegen yet"@,
        "    ret"@,
        ""@,
        "_sleep:"@,
        "    // Sleep is a no-op in native/VM mode for now"@,
        "    ret"@,
        ""@,
        "_alloc_file:"@,
        "    // File allocation not implemented in native codegen yet"@,
        "    mov x0, #0"@,
        "    ret"@,
        ""@,
        "_close_file:"@,
        "    // File close not implemented in native codegen yet"@,
        "    ret"@,
    ]
}

/// How many labels the runtime routines take.
pub open spec fn runtime_label_count() -> nat {
    9
}

/// The runtime routines, with their labels numbered from `l`.
#[verifier::opaque]
pub open spec fn runtime_lines(l: nat) -> Seq<Seq<char>> {
    runtime_part_1(l + 0)
        + runtime_part_2(l + 0)
        + runtime_part_3(l + 2)
        + runtime_part_4(l + 2)
        + runtime_part_5(l + 2)
        + runtime_part_6(l + 2)
        + runtime_part_7(l + 4)
        + runtime_part_8(l + 5)
        + runtime_part_9(l + 5)
        + runtime_part_10(l + 6)
        + runtime_part_11(l + 6)
        + runtime_part_12(l + 6)
        + runtime_part_13(l + 6)
        + runtime_part_14(l + 6)
        + runtime_part_15(l + 6)
        + runtime_part_16(l + 6)
        + runtime_part_17(l + 6)
        + runtime_part_18(l + 6)
        + runtime_part_19(l + 6)
        + runtime_part_20(l + 6)
        + runtime_part_21(l + 6)
        + runtime_part_22(l + 9)
        + runtime_part_23(l + 9)
        + runtime_part_24(l + 9)
        + runtime_part_25(l + 9)
        + runtime_part_26(l + 9)
        + runtime_part_27(l + 9)
        + runtime_part_28(l + 9)
        + runtime_part_29(l + 9)
}

/// The line `a` + `label` + `b`.
fn with_label(a: &str, label: &String, b: &str) -> (r: String)
    ensures
        r@ == a@ + label@ + b@,
{
    let x = concat(a, label.as_str());
    concat(x.as_str(), b)
}

impl Arm64CodeGen {
    /// Appends the runtime routines.
    pub fn emit_runtime(&mut self)
        requires
            old(self).labels_made() + runtime_label_count() <= usize::MAX,
        ensures
            final(self).lines() == old(self).lines() + runtime_lines(old(self).labels_made()),
            gen_view(final(self)) == (GenView { labels: old(self).labels_made() + runtime_label_count(), ..gen_view(old(self)) }),
            final(self).frame() == old(self).frame(),
            final(self).slots() == old(self).slots(),
    {
        let ghost l = self.labels_made();
        let ghost mut done: Seq<Seq<char>> = Seq::empty();
        assert(self.lines() =~= old(self).lines() + done);
        self.emit_runtime_part_1();
        proof {
            vstd::seq_lib::lemma_concat_associative(old(self).lines(), done, runtime_part_1(l + 0));
            done = done + runtime_part_1(l + 0);
        }
        self.emit_runtime_part_2();
        proof {
            vstd::seq_lib::lemma_concat_associative(old(self).lines(), done, runtime_part_2(l + 0));
            done = done + runtime_part_2(l + 0);
        }
        self.emit_runtime_part_3();
        proof {
            vstd::seq_lib::lemma_concat_associative(old(self).lines(), done, runtime_part_3(l + 2));
            done = done + runtime_part_3(l + 2);
        }
        self.emit_runtime_part_4();
        proof {
            vstd::seq_lib::lemma_concat_associative(old(self).lines(), done, runtime_part_4(l + 2));
            done = done + runtime_part_4(l + 2);
        }
        self.emit_runtime_part_5();
        proof {
            vstd::seq_lib::lemma_concat_associative(old(self).lines(), done, runtime_part_5(l + 2));
            done = done + runtime_part_5(l + 2);
        }
        self.emit_runtime_part_6();
        proof {
            vstd::seq_lib::lemma_concat_associative(old(self).lines(), done, runtime_part_6(l + 2));
            done = done + runtime_part_6(l + 2);
        }
        self.emit_runtime_part_7();
        proof {
            vstd::seq_lib::lemma_concat_associative(old(self).lines(), done, runtime_part_7(l + 4));
            done = done + runtime_part_7(l + 4);
        }
        self.emit_runtime_part_8();
        proof {
            vstd::seq_lib::lemma_concat_associative(old(self).lines(), done, runtime_part_8(l + 5));
            done = done + runtime_part_8(l + 5);
        }
        self.emit_runtime_part_9();
        proof {
            vstd::seq_lib::lemma_concat_associative(old(self).lines(), done, runtime_part_9(l + 5));
            done = done + runtime_part_9(l + 5);
        }
        self.emit_runtime_part_10();
        proof {
            vstd::seq_lib::lemma_concat_associative(old(self).lines(), done, runtime_part_10(l + 6));
            done = done + runtime_part_10(l + 6);
        }
        self.emit_runtime_part_11();
        proof {
            vstd::seq_lib::lemma_concat_associative(old(self).lines(), done, runtime_part_11(l + 6));
            done = done + runtime_part_11(l + 6);
        }
        self.emit_runtime_part_12();
        proof {
            vstd::seq_lib::lemma_concat_associative(old(self).lines(), done, runtime_part_12(l + 6));
            done = done + runtime_part_12(l + 6);
        }
        self.emit_runtime_part_13();
        proof {
            vstd::seq_lib::lemma_concat_associative(old(self).lines(), done, runtime_part_13(l + 6));
            done = done + runtime_part_13(l + 6);
        }
        self.emit_runtime_part_14();
        proof {
            vstd::seq_lib::lemma_concat_associative(old(self).lines(), done, runtime_part_14(l + 6));
            done = done + runtime_part_14(l + 6);
        }
        self.emit_runtime_part_15();
        proof {
            vstd::seq_lib::lemma_concat_associative(old(self).lines(), done, runtime_part_15(l + 6));
            done = done + runtime_part_15(l + 6);
        }
        self.emit_runtime_part_16();
        proof {
            vstd::seq_lib::lemma_concat_associative(old(self).lines(), done, runtime_part_16(l + 6));
            done = done + runtime_part_16(l + 6);
        }
        self.emit_runtime_part_17();
        proof {
            vstd::seq_lib::lemma_concat_associative(old(self).lines(), done, runtime_part_17(l + 6));
            done = done + runtime_part_17(l + 6);
        }
        self.emit_runtime_part_18();
        proof {
            vstd::seq_lib::lemma_concat_associative(old(self).lines(), done, runtime_part_18(l + 6));
            done = done + runtime_part_18(l + 6);
        }
        self.emit_runtime_part_19();
        proof {
            vstd::seq_lib::lemma_concat_associative(old(self).lines(), done, runtime_part_19(l + 6));
            done = done + runtime_part_19(l + 6);
        }
        self.emit_runtime_part_20();
        proof {
            vstd::seq_lib::lemma_concat_associative(old(self).lines(), done, runtime_part_20(l + 6));
            done = done + runtime_part_20(l + 6);
        }
        self.emit_runtime_part_21();
        proof {
            vstd::seq_lib::lemma_concat_associative(old(self).lines(), done, runtime_part_21(l + 6));
            done = done + runtime_part_21(l + 6);
        }
        self.emit_runtime_part_22();
        proof {
            vstd::seq_lib::lemma_concat_associative(old(self).lines(), done, runtime_part_22(l + 9));
            done = done + runtime_part_22(l + 9);
        }
        self.emit_runtime_part_23();
        proof {
            vstd::seq_lib::lemma_concat_associative(old(self).lines(), done, runtime_part_23(l + 9));
            done = done + runtime_part_23(l + 9);
        }
        self.emit_runtime_part_24();
        proof {
            vstd::seq_lib::lemma_concat_associative(old(self).lines(), done, runtime_part_24(l + 9));
            done = done + runtime_part_24(l + 9);
        }
        self.emit_runtime_part_25();
        proof {
            vstd::seq_lib::lemma_concat_associative(old(self).lines(), done, runtime_part_25(l + 9));
            done = done + runtime_part_25(l + 9);
        }
        self.emit_runtime_part_26();
        proof {
            vstd::seq_lib::lemma_concat_associative(old(self).lines(), done, runtime_part_26(l + 9));
            done = done + runtime_part_26(l + 9);
        }
        self.emit_runtime_part_27();
        proof {
            vstd::seq_lib::lemma_concat_associative(old(self).lines(), done, runtime_part_27(l + 9));
            done = done + runtime_part_27(l + 9);
        }
        self.emit_runtime_part_28();
        proof {
            vstd::seq_lib::lemma_concat_associative(old(self).lines(), done, runtime_part_28(l + 9));
            done = done + runtime_part_28(l + 9);
        }
        self.emit_runtime_part_29();
        proof {
            vstd::seq_lib::lemma_concat_associative(old(self).lines(), done, runtime_part_29(l + 9));
            done = done + runtime_part_29(l + 9);
        }
        proof {
            reveal(runtime_lines);
        }
        assert(done == runtime_lines(l));
    }

    /// Part 1 of the runtime routines.
    fn emit_runtime_part_1(&mut self)
        requires
            old(self).labels_made() + 0 <= usize::MAX,
        ensures
            final(self).lines() == old(self).lines() + runtime_part_1(old(self).labels_made()),
            gen_view(final(self)) == (GenView { labels: old(self).labels_made() + 0, ..gen_view(old(self)) }),
            final(self).frame() == old(self).frame(),
            final(self).slots() == old(self).slots(),
    {
        let ghost l = self.labels_made();
        let mut block: Vec<Vec<char>> = Vec::new();
        push_line(&mut block, "");
        push_line(&mut block, "_print_val:");
        push_line(&mut block, "    stp x29, x30, [sp, #-32]!");
        push_line(&mut block, "    str x19, [sp, #16]");
        push_line(&mut block, "    mov x29, sp");
        push_line(&mut block, "    mov x19, x0");
        push_line(&mut block, "    cmp x19, #0x1000");
        push_line(&mut block, "    b.hi .print_val_ptr");
        push_line(&mut block, "    mov x0, x19");
        push_line(&mut block, "    bl _print_num_no_nl");
        push_line(&mut block, "    ldr x19, [sp, #16]");
        push_line(&mut block, "    ldp x29, x30, [sp], #32");
        push_line(&mut block, "    ret");
        push_line(&mut block, ".print_val_ptr:");
        push_line(&mut block, "    ldr x0, [x19, #0]");
        push_line(&mut block, "    cmp x0, #1");
        push_line(&mut block, "    b.eq .print_val_list");
        push_line(&mut block, "    cmp x0, #2");
        push_line(&mut block, "    b.eq .print_val_map");
        push_line(&mut block, "    cmp x0, #3");
        push_line(&mut block, "    b.eq .print_val_str");
        push_line(&mut block, "    mov x0, x19");
        push_line(&mut block, "    bl _print_str_no_nl");
        push_line(&mut block, "    ldr x19, [sp, #16]");
        push_line(&mut block, "    ldp x29, x30, [sp], #32");
        push_line(&mut block, "    ret");
        push_line(&mut block, ".print_val_str:");
        push_line(&mut block, "    add x0, x19, #24");
        push_line(&mut block, "    bl _print_str_no_nl");
        push_line(&mut block, "    ldr x19, [sp, #16]");
        assert(crate::chars::views(block@) =~= runtime_part_1(l));
        self.emit_lines(&block);
    }

    /// Part 2 of the runtime routines.
    fn emit_runtime_part_2(&mut self)
        requires
            old(self).labels_made() + 2 <= usize::MAX,
        ensures
            final(self).lines() == old(self).lines() + runtime_part_2(old(self).labels_made()),
            gen_view(final(self)) == (GenView { labels: old(self).labels_made() + 2, ..gen_view(old(self)) }),
            final(self).frame() == old(self).frame(),
            final(self).slots() == old(self).slots(),
    {
        let ghost l = self.labels_made();
        let inc_done = self.fresh_label();
        let dec_done = self.fresh_label();
        let mut block: Vec<Vec<char>> = Vec::new();
        push_line(&mut block, "    ldp x29, x30, [sp], #32");
        push_line(&mut block, "    ret");
        push_line(&mut block, ".print_val_list:");
        push_line(&mut block, "    mov x0, x19");
        push_line(&mut block, "    bl _print_list");
        push_line(&mut block, "    ldr x19, [sp, #16]");
        push_line(&mut block, "    ldp x29, x30, [sp], #32");
        push_line(&mut block, "    ret");
        push_line(&mut block, ".print_val_map:");
        push_line(&mut block, "    mov x0, x19");
        push_line(&mut block, "    bl _print_map");
        push_line(&mut block, "    ldr x19, [sp, #16]");
        push_line(&mut block, "    ldp x29, x30, [sp], #32");
        push_line(&mut block, "    ret");
        push_line(&mut block, "");
        push_line(&mut block, "_inc_rc:");
        let d1 = concat("    cbz x0, ", inc_done.as_str());
        push_line(&mut block, d1.as_str());
        push_line(&mut block, "    cmp x0, #0x1000");
        let d2 = concat("    b.lo ", inc_done.as_str());
        push_line(&mut block, d2.as_str());
        push_line(&mut block, "    ldr x1, [x0, #8]");
        push_line(&mut block, "    cmp x1, #0");
        let d3 = concat("    b.lt ", inc_done.as_str());
        push_line(&mut block, d3.as_str());
        push_line(&mut block, "    add x1, x1, #1");
        push_line(&mut block, "    str x1, [x0, #8]");
        let d4 = concat(inc_done.as_str(), ":");
        push_line(&mut block, d4.as_str());
        push_line(&mut block, "    ret");
        push_line(&mut block, "");
        push_line(&mut block, "_dec_rc:");
        let d5 = concat("    cbz x0, ", dec_done.as_str());
        push_line(&mut block, d5.as_str());
        push_line(&mut block, "    cmp x0, #0x1000");
        let d6 = concat("    b.lo ", dec_done.as_str());
        push_line(&mut block, d6.as_str());
        push_line(&mut block, "    ldr x1, [x0, #8]");
        push_line(&mut block, "    cmp x1, #0");
        let d7 = concat("    b.lt ", dec_done.as_str());
        push_line(&mut block, d7.as_str());
        push_line(&mut block, "    sub x1, x1, #1");
        push_line(&mut block, "    str x1, [x0, #8]");
        let d8 = concat("    cbnz x1, ", dec_done.as_str());
        push_line(&mut block, d8.as_str());
        push_line(&mut block, "    stp x29, x30, [sp, #-16]!");
        push_line(&mut block, "    bl _gc_free");
        push_line(&mut block, "    ldp x29, x30, [sp], #16");
        let d9 = concat(dec_done.as_str(), ":");
        push_line(&mut block, d9.as_str());
        assert(crate::chars::views(block@) =~= runtime_part_2(l));
        self.emit_lines(&block);
    }

    /// Part 3 of the runtime routines.
    fn emit_runtime_part_3(&mut self)
        requires
            old(self).labels_made() + 0 <= usize::MAX,
        ensures
            final(self).lines() == old(self).lines() + runtime_part_3(old(self).labels_made()),
            gen_view(final(self)) == (GenView { labels: old(self).labels_made() + 0, ..gen_view(old(self)) }),
            final(self).frame() == old(self).frame(),
            final(self).slots() == old(self).slots(),
    {
        let ghost l = self.labels_made();
        let mut block: Vec<Vec<char>> = Vec::new();
        push_line(&mut block, "    ret");
        push_line(&mut block, "");
        push_line(&mut block, "_gc_free:");
        push_line(&mut block, "    stp x29, x30, [sp, #-32]!");
        push_line(&mut block, "    str x19, [sp, #16]");
        push_line(&mut block, "    mov x29, sp");
        push_line(&mut block, "    mov x19, x0");
        push_line(&mut block, "    ldr x0, [x19, #0]");
        push_line(&mut block, "    cmp x0, #1");
        push_line(&mut block, "    b.eq .gc_free_list");
        push_line(&mut block, "    cmp x0, #2");
        push_line(&mut block, "    b.eq .gc_free_map");
        push_line(&mut block, "    cmp x0, #4");
        push_line(&mut block, "    b.eq .gc_free_struct");
        push_line(&mut block, "    mov x0, x19");
        push_line(&mut block, "    bl _free");
        push_line(&mut block, "    ldr x19, [sp, #16]");
        push_line(&mut block, "    ldp x29, x30, [sp], #32");
        push_line(&mut block, "    ret");
        push_line(&mut block, ".gc_free_list:");
        push_line(&mut block, "    mov x0, x19");
        push_line(&mut block, "    bl _free_list");
        push_line(&mut block, "    ldr x19, [sp, #16]");
        push_line(&mut block, "    ldp x29, x30, [sp], #32");
        push_line(&mut block, "    ret");
        push_line(&mut block, ".gc_free_map:");
        push_line(&mut block, "    mov x0, x19");
        push_line(&mut block, "    bl _free_map");
        push_line(&mut block, "    ldr x19, [sp, #16]");
        push_line(&mut block, "    ldp x29, x30, [sp], #32");
        assert(crate::chars::views(block@) =~= runtime_part_3(l));
        self.emit_lines(&block);
    }

    /// Part 4 of the runtime routines.
    fn emit_runtime_part_4(&mut self)
        requires
            old(self).labels_made() + 0 <= usize::MAX,
        ensures
            final(self).lines() == old(self).lines() + runtime_part_4(old(self).labels_made()),
            gen_view(final(self)) == (GenView { labels: old(self).labels_made() + 0, ..gen_view(old(self)) }),
            final(self).frame() == old(self).frame(),
            final(self).slots() == old(self).slots(),
    {
        let ghost l = self.labels_made();
        let mut block: Vec<Vec<char>> = Vec::new();
        push_line(&mut block, "    ret");
        push_line(&mut block, ".gc_free_struct:");
        push_line(&mut block, "    mov x0, x19");
        push_line(&mut block, "    bl _free_map");
        push_line(&mut block, "    ldr x19, [sp, #16]");
        push_line(&mut block, "    ldp x29, x30, [sp], #32");
        push_line(&mut block, "    ret");
        push_line(&mut block, "");
        push_line(&mut block, "_free_list:");
        push_line(&mut block, "    stp x29, x30, [sp, #-48]!");
        push_line(&mut block, "    stp x20, x21, [sp, #16]");
        push_line(&mut block, "    stp x22, x19, [sp, #32]");
        push_line(&mut block, "    mov x29, sp");
        push_line(&mut block, "    ldr x20, [x19, #16]");
        push_line(&mut block, "    ldr x21, [x19, #24]");
        push_line(&mut block, "    mov x22, #0");
        push_line(&mut block, ".free_list_loop:");
        push_line(&mut block, "    cmp x22, x20");
        push_line(&mut block, "    b.ge .free_list_done");
        push_line(&mut block, "    ldr x0, [x21, x22, lsl #3]");
        push_line(&mut block, "    bl _dec_rc");
        push_line(&mut block, "    add x22, x22, #1");
        push_line(&mut block, "    b .free_list_loop");
        push_line(&mut block, ".free_list_done:");
        push_line(&mut block, "    mov x0, x21");
        push_line(&mut block, "    bl _free");
        push_line(&mut block, "    mov x0, x19");
        push_line(&mut block, "    bl _free");
        push_line(&mut block, "    ldp x22, x19, [sp, #32]");
        push_line(&mut block, "    ldp x20, x21, [sp, #16]");
        assert(crate::chars::views(block@) =~= runtime_part_4(l));
        self.emit_lines(&block);
    }

    /// Part 5 of the runtime routines.
    fn emit_runtime_part_5(&mut self)
        requires
            old(self).labels_made() + 0 <= usize::MAX,
        ensures
            final(self).lines() == old(self).lines() + runtime_part_5(old(self).labels_made()),
            gen_view(final(self)) == (GenView { labels: old(self).labels_made() + 0, ..gen_view(old(self)) }),
            final(self).frame() == old(self).frame(),
            final(self).slots() == old(self).slots(),
    {
        let ghost l = self.labels_made();
        let mut block: Vec<Vec<char>> = Vec::new();
        push_line(&mut block, "    ldp x29, x30, [sp], #48");
        push_line(&mut block, "    ret");
        push_line(&mut block, "");
        push_line(&mut block, "_free_map:");
        push_line(&mut block, "    stp x29, x30, [sp, #-48]!");
        push_line(&mut block, "    stp x20, x21, [sp, #16]");
        push_line(&mut block, "    stp x22, x19, [sp, #32]");
        push_line(&mut block, "    mov x29, sp");
        push_line(&mut block, "    ldr x20, [x19, #16]");
        push_line(&mut block, "    ldr x21, [x19, #24]");
        push_line(&mut block, "    mov x22, #0");
        push_line(&mut block, ".free_map_loop:");
        push_line(&mut block, "    cmp x22, x20");
        push_line(&mut block, "    b.ge .free_map_done");
        push_line(&mut block, "    lsl x23, x22, #4");
        push_line(&mut block, "    add x23, x21, x23");
        push_line(&mut block, "    ldr x0, [x23, #0]");
        push_line(&mut block, "    bl _dec_rc");
        push_line(&mut block, "    lsl x23, x22, #4");
        push_line(&mut block, "    add x23, x21, x23");
        push_line(&mut block, "    ldr x0, [x23, #8]");
        push_line(&mut block, "    bl _dec_rc");
        push_line(&mut block, "    add x22, x22, #1");
        push_line(&mut block, "    b .free_map_loop");
        push_line(&mut block, ".free_map_done:");
        push_line(&mut block, "    mov x0, x21");
        push_line(&mut block, "    bl _free");
        push_line(&mut block, "    mov x0, x19");
        push_line(&mut block, "    bl _free");
        push_line(&mut block, "    ldp x22, x19, [sp, #32]");
        assert(crate::chars::views(block@) =~= runtime_part_5(l));
        self.emit_lines(&block);
    }

    /// Part 6 of the runtime routines.
    fn emit_runtime_part_6(&mut self)
        requires
            old(self).labels_made() + 2 <= usize::MAX,
        ensures
            final(self).lines() == old(self).lines() + runtime_part_6(old(self).labels_made()),
            gen_view(final(self)) == (GenView { labels: old(self).labels_made() + 2, ..gen_view(old(self)) }),
            final(self).frame() == old(self).frame(),
            final(self).slots() == old(self).slots(),
    {
        let ghost l = self.labels_made();
        let strlen_loop = self.fresh_label();
        let strlen_done = self.fresh_label();
        let mut block: Vec<Vec<char>> = Vec::new();
        push_line(&mut block, "    ldp x20, x21, [sp, #16]");
        push_line(&mut block, "    ldp x29, x30, [sp], #48");
        push_line(&mut block, "    ret");
        push_line(&mut block, "");
        push_line(&mut block, "_print_num_no_nl:");
        push_line(&mut block, "    stp x29, x30, [sp, #-16]!");
        push_line(&mut block, "    mov x0, x0");
        push_line(&mut block, "    mov x1, x0");
        push_line(&mut block, "    sub sp, sp, #16");
        push_line(&mut block, "    str x1, [sp, #0]");
        push_line(&mut block, "    adrp x0, .fmt_int_raw@PAGE");
        push_line(&mut block, "    add x0, x0, .fmt_int_raw@PAGEOFF");
        push_line(&mut block, "    bl _printf");
        push_line(&mut block, "    add sp, sp, #16");
        push_line(&mut block, "    mov x0, #0");
        push_line(&mut block, "    bl _fflush");
        push_line(&mut block, "    ldp x29, x30, [sp], #16");
        push_line(&mut block, "    ret");
        push_line(&mut block, "");
        push_line(&mut block, "_print_str_no_nl:");
        push_line(&mut block, "    stp x29, x30, [sp, #-16]!");
        push_line(&mut block, "    mov x1, x0");
        push_line(&mut block, "    mov x2, #0");
        let d1 = concat(strlen_loop.as_str(), ":");
        push_line(&mut block, d1.as_str());
        push_line(&mut block, "    ldrb w3, [x1, x2]");
        let d2 = concat("    cbz w3, ", strlen_done.as_str());
        push_line(&mut block, d2.as_str());
        push_line(&mut block, "    add x2, x2, #1");
        let d3 = concat("    b ", strlen_loop.as_str());
        push_line(&mut block, d3.as_str());
        let d4 = concat(strlen_done.as_str(), ":");
        push_line(&mut block, d4.as_str());
        push_line(&mut block, "    mov x0, #1");
        assert(crate::chars::views(block@) =~= runtime_part_6(l));
        self.emit_lines(&block);
    }

    /// Part 7 of the runtime routines.
    fn emit_runtime_part_7(&mut self)
        requires
            old(self).labels_made() + 1 <= usize::MAX,
        ensures
            final(self).lines() == old(self).lines() + runtime_part_7(old(self).labels_made()),
            gen_view(final(self)) == (GenView { labels: old(self).labels_made() + 1, ..gen_view(old(self)) }),
            final(self).frame() == old(self).frame(),
            final(self).slots() == old(self).slots(),
    {
        let ghost l = self.labels_made();
        let list_no_comma = self.fresh_label();
        let mut block: Vec<Vec<char>> = Vec::new();
        push_line(&mut block, "    mov x16, #4");
        push_line(&mut block, "    svc #0x80");
        push_line(&mut block, "    ldp x29, x30, [sp], #16");
        push_line(&mut block, "    ret");
        push_line(&mut block, "");
        push_line(&mut block, "_print_list:");
        push_line(&mut block, "    stp x29, x30, [sp, #-48]!");
        push_line(&mut block, "    mov x29, sp");
        push_line(&mut block, "    stp x19, x20, [sp, #16]");
        push_line(&mut block, "    stp x21, x22, [sp, #32]");
        push_line(&mut block, "    mov x19, x0");
        push_line(&mut block, "    adrp x1, .list_start@PAGE");
        push_line(&mut block, "    add x1, x1, .list_start@PAGEOFF");
        push_line(&mut block, "    mov x2, #1");
        push_line(&mut block, "    mov x0, #1");
        push_line(&mut block, "    mov x16, #4");
        push_line(&mut block, "    svc #0x80");
        push_line(&mut block, "    ldr x20, [x19, #16]");
        push_line(&mut block, "    ldr x21, [x19, #24]");
        push_line(&mut block, "    mov x22, #0");
        push_line(&mut block, ".print_list_loop:");
        push_line(&mut block, "    cmp x22, x20");
        push_line(&mut block, "    b.ge .print_list_done");
        let d1 = concat("    cbz x22, ", list_no_comma.as_str());
        push_line(&mut block, d1.as_str());
        push_line(&mut block, "    adrp x1, .comma_space@PAGE");
        push_line(&mut block, "    add x1, x1, .comma_space@PAGEOFF");
        push_line(&mut block, "    mov x2, #2");
        push_line(&mut block, "    mov x0, #1");
        push_line(&mut block, "    mov x16, #4");
        push_line(&mut block, "    svc #0x80");
        let d2 = concat(list_no_comma.as_str(), ":");
        push_line(&mut block, d2.as_str());
        assert(crate::chars::views(block@) =~= runtime_part_7(l));
        self.emit_lines(&block);
    }

    /// Part 8 of the runtime routines.
    fn emit_runtime_part_8(&mut self)
        requires
            old(self).labels_made() + 0 <= usize::MAX,
        ensures
            final(self).lines() == old(self).lines() + runtime_part_8(old(self).labels_made()),
            gen_view(final(self)) == (GenView { labels: old(self).labels_made() + 0, ..gen_view(old(self)) }),
            final(self).frame() == old(self).frame(),
            final(self).slots() == old(self).slots(),
    {
        let ghost l = self.labels_made();
        let mut block: Vec<Vec<char>> = Vec::new();
        push_line(&mut block, "    stp x19, x20, [sp, #16]");
        push_line(&mut block, "    stp x21, x22, [sp, #32]");
        push_line(&mut block, "    ldr x0, [x21, x22, lsl #3]");
        push_line(&mut block, "    bl _print_val");
        push_line(&mut block, "    ldp x21, x22, [sp, #32]");
        push_line(&mut block, "    ldp x19, x20, [sp, #16]");
        push_line(&mut block, "    add x22, x22, #1");
        push_line(&mut block, "    b .print_list_loop");
        push_line(&mut block, ".print_list_done:");
        push_line(&mut block, "    adrp x1, .list_end@PAGE");
        push_line(&mut block, "    add x1, x1, .list_end@PAGEOFF");
        push_line(&mut block, "    mov x2, #1");
        push_line(&mut block, "    mov x0, #1");
        push_line(&mut block, "    mov x16, #4");
        push_line(&mut block, "    svc #0x80");
        push_line(&mut block, "    ldp x21, x22, [sp, #32]");
        push_line(&mut block, "    ldp x19, x20, [sp, #16]");
        push_line(&mut block, "    ldp x29, x30, [sp], #48");
        push_line(&mut block, "    ret");
        push_line(&mut block, "");
        push_line(&mut block, "_print_map:");
        push_line(&mut block, "    stp x29, x30, [sp, #-48]!");
        push_line(&mut block, "    mov x29, sp");
        push_line(&mut block, "    stp x19, x20, [sp, #16]");
        push_line(&mut block, "    stp x21, x22, [sp, #32]");
        push_line(&mut block, "    mov x19, x0");
        push_line(&mut block, "    adrp x1, .map_start@PAGE");
        push_line(&mut block, "    add x1, x1, .map_start@PAGEOFF");
        push_line(&mut block, "    mov x2, #1");
        push_line(&mut block, "    mov x0, #1");
        assert(crate::chars::views(block@) =~= runtime_part_8(l));
        self.emit_lines(&block);
    }

    /// Part 9 of the runtime routines.
    fn emit_runtime_part_9(&mut self)
        requires
            old(self).labels_made() + 1 <= usize::MAX,
        ensures
            final(self).lines() == old(self).lines() + runtime_part_9(old(self).labels_made()),
            gen_view(final(self)) == (GenView { labels: old(self).labels_made() + 1, ..gen_view(old(self)) }),
            final(self).frame() == old(self).frame(),
            final(self).slots() == old(self).slots(),
    {
        let ghost l = self.labels_made();
        let map_no_comma = self.fresh_label();
        let mut block: Vec<Vec<char>> = Vec::new();
        push_line(&mut block, "    mov x16, #4");
        push_line(&mut block, "    svc #0x80");
        push_line(&mut block, "    ldr x20, [x19, #16]");
        push_line(&mut block, "    ldr x21, [x19, #24]");
        push_line(&mut block, "    mov x22, #0");
        push_line(&mut block, ".print_map_loop:");
        push_line(&mut block, "    cmp x22, x20");
        push_line(&mut block, "    b.ge .print_map_done");
        let d1 = concat("    cbz x22, ", map_no_comma.as_str());
        push_line(&mut block, d1.as_str());
        push_line(&mut block, "    adrp x1, .comma_space@PAGE");
        push_line(&mut block, "    add x1, x1, .comma_space@PAGEOFF");
        push_line(&mut block, "    mov x2, #2");
        push_line(&mut block, "    mov x0, #1");
        push_line(&mut block, "    mov x16, #4");
        push_line(&mut block, "    svc #0x80");
        let d2 = concat(map_no_comma.as_str(), ":");
        push_line(&mut block, d2.as_str());
        push_line(&mut block, "    stp x19, x20, [sp, #16]");
        push_line(&mut block, "    stp x21, x22, [sp, #32]");
        push_line(&mut block, "    lsl x25, x22, #4");
        push_line(&mut block, "    ldr x0, [x21, x25]");
        push_line(&mut block, "    bl _print_val");
        push_line(&mut block, "    adrp x1, .colon_space@PAGE");
        push_line(&mut block, "    add x1, x1, .colon_space@PAGEOFF");
        push_line(&mut block, "    mov x2, #2");
        push_line(&mut block, "    mov x0, #1");
        push_line(&mut block, "    mov x16, #4");
        push_line(&mut block, "    svc #0x80");
        push_line(&mut block, "    ldp x21, x22, [sp, #32]");
        push_line(&mut block, "    lsl x25, x22, #4");
        push_line(&mut block, "    add x25, x21, x25");
        assert(crate::chars::views(block@) =~= runtime_part_9(l));
        self.emit_lines(&block);
    }

    /// Part 10 of the runtime routines.
    fn emit_runtime_part_10(&mut self)
        requires
            old(self).labels_made() + 0 <= usize::MAX,
        ensures
            final(self).lines() == old(self).lines() + runtime_part_10(old(self).labels_made()),
            gen_view(final(self)) == (GenView { labels: old(self).labels_made() + 0, ..gen_view(old(self)) }),
            final(self).frame() == old(self).frame(),
            final(self).slots() == old(self).slots(),
    {
        let ghost l = self.labels_made();
        let mut block: Vec<Vec<char>> = Vec::new();
        push_line(&mut block, "    ldr x0, [x25, #8]");
        push_line(&mut block, "    stp x21, x22, [sp, #32]");
        push_line(&mut block, "    bl _print_val");
        push_line(&mut block, "    ldp x21, x22, [sp, #32]");
        push_line(&mut block, "    ldp x19, x20, [sp, #16]");
        push_line(&mut block, "    add x22, x22, #1");
        push_line(&mut block, "    b .print_map_loop");
        push_line(&mut block, ".print_map_done:");
        push_line(&mut block, "    adrp x1, .map_end@PAGE");
        push_line(&mut block, "    add x1, x1, .map_end@PAGEOFF");
        push_line(&mut block, "    mov x2, #1");
        push_line(&mut block, "    mov x0, #1");
        push_line(&mut block, "    mov x16, #4");
        push_line(&mut block, "    svc #0x80");
        push_line(&mut block, "    ldp x21, x22, [sp, #32]");
        push_line(&mut block, "    ldp x19, x20, [sp, #16]");
        push_line(&mut block, "    ldp x29, x30, [sp], #48");
        push_line(&mut block, "    ret");
        push_line(&mut block, "");
        push_line(&mut block, "_print_num:");
        push_line(&mut block, "    stp x29, x30, [sp, #-16]!");
        push_line(&mut block, "    mov x29, sp");
        push_line(&mut block, "    sub sp, sp, #16");
        push_line(&mut block, "    str x1, [sp, #0]");
        push_line(&mut block, "    adrp x0, .fmt_int@PAGE");
        push_line(&mut block, "    add x0, x0, .fmt_int@PAGEOFF");
        push_line(&mut block, "    bl _printf");
        push_line(&mut block, "    add sp, sp, #16");
        push_line(&mut block, "    mov x0, #0");
        push_line(&mut block, "    bl _fflush");
        assert(crate::chars::views(block@) =~= runtime_part_10(l));
        self.emit_lines(&block);
    }

    /// Part 11 of the runtime routines.
    fn emit_runtime_part_11(&mut self)
        requires
            old(self).labels_made() + 0 <= usize::MAX,
        ensures
            final(self).lines() == old(self).lines() + runtime_part_11(old(self).labels_made()),
            gen_view(final(self)) == (GenView { labels: old(self).labels_made() + 0, ..gen_view(old(self)) }),
            final(self).frame() == old(self).frame(),
            final(self).slots() == old(self).slots(),
    {
        let ghost l = self.labels_made();
        let mut block: Vec<Vec<char>> = Vec::new();
        push_line(&mut block, "    ldp x29, x30, [sp], #16");
        push_line(&mut block, "    ret");
        push_line(&mut block, "");
        push_line(&mut block, "_len:");
        push_line(&mut block, "    stp x29, x30, [sp, #-16]!");
        push_line(&mut block, "    cbz x0, .len_null");
        push_line(&mut block, "    ldr x0, [x0, #16]");
        push_line(&mut block, "    ldp x29, x30, [sp], #16");
        push_line(&mut block, "    ret");
        push_line(&mut block, ".len_null:");
        push_line(&mut block, "    mov x0, #0");
        push_line(&mut block, "    ldp x29, x30, [sp], #16");
        push_line(&mut block, "    ret");
        push_line(&mut block, "");
        push_line(&mut block, "_is_map:");
        push_line(&mut block, "    cbz x0, .is_map_no");
        push_line(&mut block, "    cmp x0, #0x1000");
        push_line(&mut block, "    b.lo .is_map_no");
        push_line(&mut block, "    ldr x1, [x0, #0]");
        push_line(&mut block, "    cmp x1, #2");
        push_line(&mut block, "    cset x0, eq");
        push_line(&mut block, "    ret");
        push_line(&mut block, ".is_map_no:");
        push_line(&mut block, "    mov x0, #0");
        push_line(&mut block, "    ret");
        push_line(&mut block, "");
        push_line(&mut block, "_is_list:");
        push_line(&mut block, "    cbz x0, .is_list_no");
        push_line(&mut block, "    cmp x0, #0x1000");
        push_line(&mut block, "    b.lo .is_list_no");
        assert(crate::chars::views(block@) =~= runtime_part_11(l));
        self.emit_lines(&block);
    }

    /// Part 12 of the runtime routines.
    fn emit_runtime_part_12(&mut self)
        requires
            old(self).labels_made() + 0 <= usize::MAX,
        ensures
            final(self).lines() == old(self).lines() + runtime_part_12(old(self).labels_made()),
            gen_view(final(self)) == (GenView { labels: old(self).labels_made() + 0, ..gen_view(old(self)) }),
            final(self).frame() == old(self).frame(),
            final(self).slots() == old(self).slots(),
    {
        let ghost l = self.labels_made();
        let mut block: Vec<Vec<char>> = Vec::new();
        push_line(&mut block, "    ldr x1, [x0, #0]");
        push_line(&mut block, "    cmp x1, #1");
        push_line(&mut block, "    cset x0, eq");
        push_line(&mut block, "    ret");
        push_line(&mut block, ".is_list_no:");
        push_line(&mut block, "    mov x0, #0");
        push_line(&mut block, "    ret");
        push_line(&mut block, "");
        push_line(&mut block, "_is_string:");
        push_line(&mut block, "    cbz x0, .is_string_no");
        push_line(&mut block, "    cmp x0, #0x1000");
        push_line(&mut block, "    b.lo .is_string_no");
        push_line(&mut block, "    ldr x1, [x0, #0]");
        push_line(&mut block, "    cmp x1, #3");
        push_line(&mut block, "    cset x0, eq");
        push_line(&mut block, "    ret");
        push_line(&mut block, ".is_string_no:");
        push_line(&mut block, "    mov x0, #0");
        push_line(&mut block, "    ret");
        push_line(&mut block, "");
        push_line(&mut block, "_type:");
        push_line(&mut block, "    cbz x0, .type_null");
        push_line(&mut block, "    cmp x0, #0x1000");
        push_line(&mut block, "    b.lo .type_number");
        push_line(&mut block, "    ldr x1, [x0, #0]");
        push_line(&mut block, "    cmp x1, #1");
        push_line(&mut block, "    b.eq .type_list");
        push_line(&mut block, "    cmp x1, #2");
        push_line(&mut block, "    b.eq .type_map");
        push_line(&mut block, "    cmp x1, #3");
        assert(crate::chars::views(block@) =~= runtime_part_12(l));
        self.emit_lines(&block);
    }

    /// Part 13 of the runtime routines.
    fn emit_runtime_part_13(&mut self)
        requires
            old(self).labels_made() + 0 <= usize::MAX,
        ensures
            final(self).lines() == old(self).lines() + runtime_part_13(old(self).labels_made()),
            gen_view(final(self)) == (GenView { labels: old(self).labels_made() + 0, ..gen_view(old(self)) }),
            final(self).frame() == old(self).frame(),
            final(self).slots() == old(self).slots(),
    {
        let ghost l = self.labels_made();
        let mut block: Vec<Vec<char>> = Vec::new();
        push_line(&mut block, "    b.eq .type_string");
        push_line(&mut block, "    cmp x1, #4");
        push_line(&mut block, "    b.eq .type_struct");
        push_line(&mut block, "    b .type_object");
        push_line(&mut block, ".type_number:");
        push_line(&mut block, "    adrp x0, .t_number@PAGE");
        push_line(&mut block, "    add x0, x0, .t_number@PAGEOFF");
        push_line(&mut block, "    ret");
        push_line(&mut block, ".type_string:");
        push_line(&mut block, "    adrp x0, .t_string@PAGE");
        push_line(&mut block, "    add x0, x0, .t_string@PAGEOFF");
        push_line(&mut block, "    ret");
        push_line(&mut block, ".type_list:");
        push_line(&mut block, "    adrp x0, .t_list@PAGE");
        push_line(&mut block, "    add x0, x0, .t_list@PAGEOFF");
        push_line(&mut block, "    ret");
        push_line(&mut block, ".type_map:");
        push_line(&mut block, "    adrp x0, .t_map@PAGE");
        push_line(&mut block, "    add x0, x0, .t_map@PAGEOFF");
        push_line(&mut block, "    ret");
        push_line(&mut block, ".type_struct:");
        push_line(&mut block, "    adrp x0, .t_struct@PAGE");
        push_line(&mut block, "    add x0, x0, .t_struct@PAGEOFF");
        push_line(&mut block, "    ret");
        push_line(&mut block, ".type_null:");
        push_line(&mut block, "    adrp x0, .t_null@PAGE");
        push_line(&mut block, "    add x0, x0, .t_null@PAGEOFF");
        push_line(&mut block, "    ret");
        push_line(&mut block, ".type_object:");
        push_line(&mut block, "    adrp x0, .t_object@PAGE");
        assert(crate::chars::views(block@) =~= runtime_part_13(l));
        self.emit_lines(&block);
    }

    /// Part 14 of the runtime routines.
    fn emit_runtime_part_14(&mut self)
        requires
            old(self).labels_made() + 0 <= usize::MAX,
        ensures
            final(self).lines() == old(self).lines() + runtime_part_14(old(self).labels_made()),
            gen_view(final(self)) == (GenView { labels: old(self).labels_made() + 0, ..gen_view(old(self)) }),
            final(self).frame() == old(self).frame(),
            final(self).slots() == old(self).slots(),
    {
        let ghost l = self.labels_made();
        let mut block: Vec<Vec<char>> = Vec::new();
        push_line(&mut block, "    add x0, x0, .t_object@PAGEOFF");
        push_line(&mut block, "    ret");
        push_line(&mut block, "");
        push_line(&mut block, "_bool:");
        push_line(&mut block, "    cbz x0, .bool_false");
        push_line(&mut block, "    cmp x0, #0x1000");
        push_line(&mut block, "    b.lo .bool_num");
        push_line(&mut block, "    ldr x1, [x0, #0]");
        push_line(&mut block, "    cmp x1, #1");
        push_line(&mut block, "    b.eq .bool_lencheck");
        push_line(&mut block, "    cmp x1, #2");
        push_line(&mut block, "    b.eq .bool_lencheck");
        push_line(&mut block, "    cmp x1, #3");
        push_line(&mut block, "    b.eq .bool_lencheck");
        push_line(&mut block, "    mov x0, #1");
        push_line(&mut block, "    ret");
        push_line(&mut block, ".bool_lencheck:");
        push_line(&mut block, "    ldr x2, [x0, #16]");
        push_line(&mut block, "    cmp x2, #0");
        push_line(&mut block, "    cset x0, ne");
        push_line(&mut block, "    ret");
        push_line(&mut block, ".bool_num:");
        push_line(&mut block, "    cmp x0, #0");
        push_line(&mut block, "    cset x0, ne");
        push_line(&mut block, "    ret");
        push_line(&mut block, ".bool_false:");
        push_line(&mut block, "    mov x0, #0");
        push_line(&mut block, "    ret");
        push_line(&mut block, "");
        push_line(&mut block, "_num:");
        assert(crate::chars::views(block@) =~= runtime_part_14(l));
        self.emit_lines(&block);
    }

    /// Part 15 of the runtime routines.
    fn emit_runtime_part_15(&mut self)
        requires
            old(self).labels_made() + 0 <= usize::MAX,
        ensures
            final(self).lines() == old(self).lines() + runtime_part_15(old(self).labels_made()),
            gen_view(final(self)) == (GenView { labels: old(self).labels_made() + 0, ..gen_view(old(self)) }),
            final(self).frame() == old(self).frame(),
            final(self).slots() == old(self).slots(),
    {
        let ghost l = self.labels_made();
        let mut block: Vec<Vec<char>> = Vec::new();
        push_line(&mut block, "    cbz x0, .num_zero");
        push_line(&mut block, "    cmp x0, #0x1000");
        push_line(&mut block, "    b.lo .num_ret");
        push_line(&mut block, "    ldr x1, [x0, #0]");
        push_line(&mut block, "    cmp x1, #3");
        push_line(&mut block, "    b.ne .num_zero");
        push_line(&mut block, "    add x1, x0, #24");
        push_line(&mut block, "    mov x2, #0");
        push_line(&mut block, "    mov x3, #0");
        push_line(&mut block, "    ldrb w4, [x1]");
        push_line(&mut block, "    cmp w4, #45");
        push_line(&mut block, "    b.ne .num_loop");
        push_line(&mut block, "    mov x3, #1");
        push_line(&mut block, "    add x1, x1, #1");
        push_line(&mut block, ".num_loop:");
        push_line(&mut block, "    ldrb w4, [x1]");
        push_line(&mut block, "    cbz w4, .num_done");
        push_line(&mut block, "    cmp w4, #48");
        push_line(&mut block, "    b.lt .num_done");
        push_line(&mut block, "    cmp w4, #57");
        push_line(&mut block, "    b.gt .num_done");
        push_line(&mut block, "    sub w5, w4, #48");
        push_line(&mut block, "    mov x6, #10");
        push_line(&mut block, "    mul x2, x2, x6");
        push_line(&mut block, "    uxtw x5, w5");
        push_line(&mut block, "    add x2, x2, x5");
        push_line(&mut block, "    add x1, x1, #1");
        push_line(&mut block, "    b .num_loop");
        push_line(&mut block, ".num_done:");
        push_line(&mut block, "    cbz x3, .num_pos");
        assert(crate::chars::views(block@) =~= runtime_part_15(l));
        self.emit_lines(&block);
    }

    /// Part 16 of the runtime routines.
    fn emit_runtime_part_16(&mut self)
        requires
            old(self).labels_made() + 0 <= usize::MAX,
        ensures
            final(self).lines() == old(self).lines() + runtime_part_16(old(self).labels_made()),
            gen_view(final(self)) == (GenView { labels: old(self).labels_made() + 0, ..gen_view(old(self)) }),
            final(self).frame() == old(self).frame(),
            final(self).slots() == old(self).slots(),
    {
        let ghost l = self.labels_made();
        let mut block: Vec<Vec<char>> = Vec::new();
        push_line(&mut block, "    neg x2, x2");
        push_line(&mut block, ".num_pos:");
        push_line(&mut block, "    mov x0, x2");
        push_line(&mut block, "    ret");
        push_line(&mut block, ".num_zero:");
        push_line(&mut block, "    mov x0, #0");
        push_line(&mut block, "    ret");
        push_line(&mut block, ".num_ret:");
        push_line(&mut block, "    ret");
        push_line(&mut block, "");
        push_line(&mut block, "_str:");
        push_line(&mut block, "    stp x29, x30, [sp, #-96]!");
        push_line(&mut block, "    mov x29, sp");
        push_line(&mut block, "    stp x19, x20, [sp, #16]");
        push_line(&mut block, "    stp x21, x22, [sp, #32]");
        push_line(&mut block, "    stp x23, x24, [sp, #48]");
        push_line(&mut block, "    stp x25, x26, [sp, #64]");
        push_line(&mut block, "    stp x27, x28, [sp, #80]");
        push_line(&mut block, "    cbz x0, .str_null");
        push_line(&mut block, "    cmp x0, #0x1000");
        push_line(&mut block, "    b.lo .str_from_num");
        push_line(&mut block, "    ldr x1, [x0, #0]");
        push_line(&mut block, "    cmp x1, #3");
        push_line(&mut block, "    b.eq .str_ret");
        push_line(&mut block, "    b .str_object");
        push_line(&mut block, ".str_ret:");
        push_line(&mut block, "    b .str_epilogue");
        push_line(&mut block, ".str_null:");
        push_line(&mut block, "    adrp x0, .t_null@PAGE");
        push_line(&mut block, "    add x0, x0, .t_null@PAGEOFF");
        assert(crate::chars::views(block@) =~= runtime_part_16(l));
        self.emit_lines(&block);
    }

    /// Part 17 of the runtime routines.
    fn emit_runtime_part_17(&mut self)
        requires
            old(self).labels_made() + 0 <= usize::MAX,
        ensures
            final(self).lines() == old(self).lines() + runtime_part_17(old(self).labels_made()),
            gen_view(final(self)) == (GenView { labels: old(self).labels_made() + 0, ..gen_view(old(self)) }),
            final(self).frame() == old(self).frame(),
            final(self).slots() == old(self).slots(),
    {
        let ghost l = self.labels_made();
        let mut block: Vec<Vec<char>> = Vec::new();
        push_line(&mut block, "    b .str_epilogue");
        push_line(&mut block, ".str_object:");
        push_line(&mut block, "    adrp x0, .t_object@PAGE");
        push_line(&mut block, "    add x0, x0, .t_object@PAGEOFF");
        push_line(&mut block, "    b .str_epilogue");
        push_line(&mut block, ".str_from_num:");
        push_line(&mut block, "    mov x20, x0");
        push_line(&mut block, "    mov x0, #288");
        push_line(&mut block, "    bl _malloc");
        push_line(&mut block, "    mov x19, x0");
        push_line(&mut block, "    mov x0, #3");
        push_line(&mut block, "    str x0, [x19, #0]");
        push_line(&mut block, "    mov x0, #1");
        push_line(&mut block, "    str x0, [x19, #8]");
        push_line(&mut block, "    add x21, x19, #24");
        push_line(&mut block, "    add x22, x21, #255");
        push_line(&mut block, "    mov x23, #0");
        push_line(&mut block, "    mov x24, x20");
        push_line(&mut block, "    mov x25, #0");
        push_line(&mut block, "    cmp x24, #0");
        push_line(&mut block, "    b.ge .itoa_abs");
        push_line(&mut block, "    neg x24, x24");
        push_line(&mut block, "    mov x25, #1");
        push_line(&mut block, ".itoa_abs:");
        push_line(&mut block, "    cbnz x24, .itoa_loop");
        push_line(&mut block, "    mov w0, #48");
        push_line(&mut block, "    strb w0, [x22]");
        push_line(&mut block, "    sub x22, x22, #1");
        push_line(&mut block, "    add x23, x23, #1");
        push_line(&mut block, "    b .itoa_done_digits");
        assert(crate::chars::views(block@) =~= runtime_part_17(l));
        self.emit_lines(&block);
    }

    /// Part 18 of the runtime routines.
    fn emit_runtime_part_18(&mut self)
        requires
            old(self).labels_made() + 0 <= usize::MAX,
        ensures
            final(self).lines() == old(self).lines() + runtime_part_18(old(self).labels_made()),
            gen_view(final(self)) == (GenView { labels: old(self).labels_made() + 0, ..gen_view(old(self)) }),
            final(self).frame() == old(self).frame(),
            final(self).slots() == old(self).slots(),
    {
        let ghost l = self.labels_made();
        let mut block: Vec<Vec<char>> = Vec::new();
        push_line(&mut block, ".itoa_loop:");
        push_line(&mut block, "    mov x26, #10");
        push_line(&mut block, "    udiv x27, x24, x26");
        push_line(&mut block, "    msub x28, x27, x26, x24");
        push_line(&mut block, "    add x28, x28, #48");
        push_line(&mut block, "    strb w28, [x22]");
        push_line(&mut block, "    sub x22, x22, #1");
        push_line(&mut block, "    add x23, x23, #1");
        push_line(&mut block, "    mov x24, x27");
        push_line(&mut block, "    cbnz x24, .itoa_loop");
        push_line(&mut block, ".itoa_done_digits:");
        push_line(&mut block, "    cbz x25, .itoa_copy");
        push_line(&mut block, "    mov w0, #45");
        push_line(&mut block, "    strb w0, [x22]");
        push_line(&mut block, "    sub x22, x22, #1");
        push_line(&mut block, "    add x23, x23, #1");
        push_line(&mut block, ".itoa_copy:");
        push_line(&mut block, "    add x22, x22, #1");
        push_line(&mut block, "    mov x24, #0");
        push_line(&mut block, ".itoa_copy_loop:");
        push_line(&mut block, "    cmp x24, x23");
        push_line(&mut block, "    b.ge .itoa_copy_done");
        push_line(&mut block, "    ldrb w0, [x22, x24]");
        push_line(&mut block, "    strb w0, [x21, x24]");
        push_line(&mut block, "    add x24, x24, #1");
        push_line(&mut block, "    b .itoa_copy_loop");
        push_line(&mut block, ".itoa_copy_done:");
        push_line(&mut block, "    add x0, x21, x23");
        push_line(&mut block, "    mov w1, #0");
        push_line(&mut block, "    strb w1, [x0]");
        assert(crate::chars::views(block@) =~= runtime_part_18(l));
        self.emit_lines(&block);
    }

    /// Part 19 of the runtime routines.
    fn emit_runtime_part_19(&mut self)
        requires
            old(self).labels_made() + 0 <= usize::MAX,
        ensures
            final(self).lines() == old(self).lines() + runtime_part_19(old(self).labels_made()),
            gen_view(final(self)) == (GenView { labels: old(self).labels_made() + 0, ..gen_view(old(self)) }),
            final(self).frame() == old(self).frame(),
            final(self).slots() == old(self).slots(),
    {
        let ghost l = self.labels_made();
        let mut block: Vec<Vec<char>> = Vec::new();
        push_line(&mut block, "    str x23, [x19, #16]");
        push_line(&mut block, "    mov x0, x19");
        push_line(&mut block, "    b .str_epilogue");
        push_line(&mut block, ".str_epilogue:");
        push_line(&mut block, "    ldp x27, x28, [sp, #80]");
        push_line(&mut block, "    ldp x25, x26, [sp, #64]");
        push_line(&mut block, "    ldp x23, x24, [sp, #48]");
        push_line(&mut block, "    ldp x21, x22, [sp, #32]");
        push_line(&mut block, "    ldp x19, x20, [sp, #16]");
        push_line(&mut block, "    ldp x29, x30, [sp], #96");
        push_line(&mut block, "    ret");
        push_line(&mut block, "");
        push_line(&mut block, "_set_struct_member:");
        push_line(&mut block, "    b _set_map_generic");
        push_line(&mut block, "");
        push_line(&mut block, "_get_struct_member:");
        push_line(&mut block, "    b _get_map_generic");
        push_line(&mut block, "");
        push_line(&mut block, "_set_map_generic:");
        push_line(&mut block, "    stp x29, x30, [sp, #-48]!");
        push_line(&mut block, "    stp x19, x20, [sp, #16]");
        push_line(&mut block, "    stp x21, x22, [sp, #32]");
        push_line(&mut block, "    mov x19, x0");
        push_line(&mut block, "    mov x20, x1");
        push_line(&mut block, "    mov x21, x2");
        push_line(&mut block, "    ldr x22, [x19, #16]");
        push_line(&mut block, "    ldr x23, [x19, #24]");
        push_line(&mut block, "    mov x0, x20");
        push_line(&mut block, "    bl _inc_rc");
        push_line(&mut block, "    mov x0, x21");
        assert(crate::chars::views(block@) =~= runtime_part_19(l));
        self.emit_lines(&block);
    }

    /// Part 20 of the runtime routines.
    fn emit_runtime_part_20(&mut self)
        requires
            old(self).labels_made() + 0 <= usize::MAX,
        ensures
            final(self).lines() == old(self).lines() + runtime_part_20(old(self).labels_made()),
            gen_view(final(self)) == (GenView { labels: old(self).labels_made() + 0, ..gen_view(old(self)) }),
            final(self).frame() == old(self).frame(),
            final(self).slots() == old(self).slots(),
    {
        let ghost l = self.labels_made();
        let mut block: Vec<Vec<char>> = Vec::new();
        push_line(&mut block, "    bl _inc_rc");
        push_line(&mut block, "    add x24, x22, #1");
        push_line(&mut block, "    lsl x0, x24, #4");
        push_line(&mut block, "    mov x25, x0");
        push_line(&mut block, "    mov x0, x23");
        push_line(&mut block, "    mov x1, x25");
        push_line(&mut block, "    bl _realloc");
        push_line(&mut block, "    str x0, [x19, #24]");
        push_line(&mut block, "    mov x23, x0");
        push_line(&mut block, "    lsl x26, x22, #4");
        push_line(&mut block, "    add x27, x23, x26");
        push_line(&mut block, "    str x20, [x27, #0]");
        push_line(&mut block, "    str x21, [x27, #8]");
        push_line(&mut block, "    str x24, [x19, #16]");
        push_line(&mut block, "    ldp x21, x22, [sp, #32]");
        push_line(&mut block, "    ldp x19, x20, [sp, #16]");
        push_line(&mut block, "    ldp x29, x30, [sp], #48");
        push_line(&mut block, "    ret");
        push_line(&mut block, "");
        push_line(&mut block, "_get_map_generic:");
        push_line(&mut block, "    stp x29, x30, [sp, #-48]!");
        push_line(&mut block, "    stp x19, x20, [sp, #16]");
        push_line(&mut block, "    stp x21, x22, [sp, #32]");
        push_line(&mut block, "    mov x19, x0");
        push_line(&mut block, "    mov x20, x1");
        push_line(&mut block, "    ldr x21, [x19, #16]");
        push_line(&mut block, "    ldr x22, [x19, #24]");
        push_line(&mut block, "    mov x23, #0");
        push_line(&mut block, ".get_map_loop:");
        push_line(&mut block, "    cmp x23, x21");
        assert(crate::chars::views(block@) =~= runtime_part_20(l));
        self.emit_lines(&block);
    }

    /// Part 21 of the runtime routines.
    fn emit_runtime_part_21(&mut self)
        requires
            old(self).labels_made() + 3 <= usize::MAX,
        ensures
            final(self).lines() == old(self).lines() + runtime_part_21(old(self).labels_made()),
            gen_view(final(self)) == (GenView { labels: old(self).labels_made() + 3, ..gen_view(old(self)) }),
            final(self).frame() == old(self).frame(),
            final(self).slots() == old(self).slots(),
    {
        let ghost l = self.labels_made();
        let strcmp_loop = self.fresh_label();
        let strcmp_mismatch = self.fresh_label();
        let strcmp_equal = self.fresh_label();
        let mut block: Vec<Vec<char>> = Vec::new();
        push_line(&mut block, "    b.ge .get_map_not_found");
        push_line(&mut block, "    lsl x24, x23, #4");
        push_line(&mut block, "    add x24, x22, x24");
        push_line(&mut block, "    ldr x0, [x24, #0]");
        push_line(&mut block, "    mov x1, x20");
        push_line(&mut block, "    bl _strcmp");
        push_line(&mut block, "    cbz x0, .get_map_found");
        push_line(&mut block, "    add x23, x23, #1");
        push_line(&mut block, "    b .get_map_loop");
        push_line(&mut block, ".get_map_found:");
        push_line(&mut block, "    lsl x24, x23, #4");
        push_line(&mut block, "    add x24, x22, x24");
        push_line(&mut block, "    ldr x0, [x24, #8]");
        push_line(&mut block, "    ldp x21, x22, [sp, #32]");
        push_line(&mut block, "    ldp x19, x20, [sp, #16]");
        push_line(&mut block, "    ldp x29, x30, [sp], #48");
        push_line(&mut block, "    ret");
        push_line(&mut block, ".get_map_not_found:");
        push_line(&mut block, "    mov x0, #0");
        push_line(&mut block, "    ldp x21, x22, [sp, #32]");
        push_line(&mut block, "    ldp x19, x20, [sp, #16]");
        push_line(&mut block, "    ldp x29, x30, [sp], #48");
        push_line(&mut block, "    ret");
        push_line(&mut block, "");
        push_line(&mut block, "_strcmp:");
        let d1 = concat(strcmp_loop.as_str(), ":");
        push_line(&mut block, d1.as_str());
        push_line(&mut block, "    ldrb w2, [x0]");
        push_line(&mut block, "    ldrb w3, [x1]");
        push_line(&mut block, "    cmp w2, w3");
        let d2 = concat("    b.ne ", strcmp_mismatch.as_str());
        push_line(&mut block, d2.as_str());
        let d3 = concat("    cbz w2, ", strcmp_equal.as_str());
        push_line(&mut block, d3.as_str());
        push_line(&mut block, "    add x0, x0, #1");
        push_line(&mut block, "    add x1, x1, #1");
        let d4 = concat("    b ", strcmp_loop.as_str());
        push_line(&mut block, d4.as_str());
        let d5 = concat(strcmp_mismatch.as_str(), ":");
        push_line(&mut block, d5.as_str());
        push_line(&mut block, "    mov x0, #1");
        push_line(&mut block, "    ret");
        let d6 = concat(strcmp_equal.as_str(), ":");
        push_line(&mut block, d6.as_str());
        assert(crate::chars::views(block@) =~= runtime_part_21(l));
        self.emit_lines(&block);
    }

    /// Part 22 of the runtime routines.
    fn emit_runtime_part_22(&mut self)
        requires
            old(self).labels_made() + 0 <= usize::MAX,
        ensures
            final(self).lines() == old(self).lines() + runtime_part_22(old(self).labels_made()),
            gen_view(final(self)) == (GenView { labels: old(self).labels_made() + 0, ..gen_view(old(self)) }),
            final(self).frame() == old(self).frame(),
            final(self).slots() == old(self).slots(),
    {
        let ghost l = self.labels_made();
        let mut block: Vec<Vec<char>> = Vec::new();
        push_line(&mut block, "    mov x0, #0");
        push_line(&mut block, "    ret");
        push_line(&mut block, "");
        push_line(&mut block, "_keys:");
        push_line(&mut block, "    stp x29, x30, [sp, #-64]!");
        push_line(&mut block, "    stp x19, x20, [sp, #16]");
        push_line(&mut block, "    stp x21, x22, [sp, #32]");
        push_line(&mut block, "    stp x23, x24, [sp, #48]");
        push_line(&mut block, "    mov x29, sp");
        push_line(&mut block, "    cbz x0, .keys_null");
        push_line(&mut block, "    ldr x19, [x0, #16]");
        push_line(&mut block, "    ldr x20, [x0, #24]");
        push_line(&mut block, "    mov x21, x19");
        push_line(&mut block, "    mov x0, #32");
        push_line(&mut block, "    bl _malloc");
        push_line(&mut block, "    mov x22, x0");
        push_line(&mut block, "    mov x25, #1");
        push_line(&mut block, "    str x25, [x22, #0]");
        push_line(&mut block, "    mov x25, #1");
        push_line(&mut block, "    str x25, [x22, #8]");
        push_line(&mut block, "    str x21, [x22, #16]");
        push_line(&mut block, "    lsl x0, x21, #3");
        push_line(&mut block, "    bl _malloc");
        push_line(&mut block, "    str x0, [x22, #24]");
        push_line(&mut block, "    mov x23, x0");
        push_line(&mut block, "    mov x24, #0");
        push_line(&mut block, ".keys_loop:");
        push_line(&mut block, "    cmp x24, x21");
        push_line(&mut block, "    b.ge .keys_done");
        push_line(&mut block, "    lsl x25, x24, #4");
        assert(crate::chars::views(block@) =~= runtime_part_22(l));
        self.emit_lines(&block);
    }

    /// Part 23 of the runtime routines.
    fn emit_runtime_part_23(&mut self)
        requires
            old(self).labels_made() + 0 <= usize::MAX,
        ensures
            final(self).lines() == old(self).lines() + runtime_part_23(old(self).labels_made()),
            gen_view(final(self)) == (GenView { labels: old(self).labels_made() + 0, ..gen_view(old(self)) }),
            final(self).frame() == old(self).frame(),
            final(self).slots() == old(self).slots(),
    {
        let ghost l = self.labels_made();
        let mut block: Vec<Vec<char>> = Vec::new();
        push_line(&mut block, "    ldr x0, [x20, x25]");
        push_line(&mut block, "    bl _inc_rc");
        push_line(&mut block, "    lsl x25, x24, #3");
        push_line(&mut block, "    str x0, [x23, x25]");
        push_line(&mut block, "    add x24, x24, #1");
        push_line(&mut block, "    b .keys_loop");
        push_line(&mut block, ".keys_done:");
        push_line(&mut block, "    mov x0, x22");
        push_line(&mut block, "    ldp x23, x24, [sp, #48]");
        push_line(&mut block, "    ldp x21, x22, [sp, #32]");
        push_line(&mut block, "    ldp x19, x20, [sp, #16]");
        push_line(&mut block, "    ldp x29, x30, [sp], #64");
        push_line(&mut block, "    ret");
        push_line(&mut block, ".keys_null:");
        push_line(&mut block, "    mov x0, #0");
        push_line(&mut block, "    ldp x23, x24, [sp, #48]");
        push_line(&mut block, "    ldp x21, x22, [sp, #32]");
        push_line(&mut block, "    ldp x19, x20, [sp, #16]");
        push_line(&mut block, "    ldp x29, x30, [sp], #64");
        push_line(&mut block, "    ret");
        push_line(&mut block, "");
        push_line(&mut block, "_range:");
        push_line(&mut block, "    stp x29, x30, [sp, #-48]!");
        push_line(&mut block, "    stp x19, x20, [sp, #16]");
        push_line(&mut block, "    stp x21, x22, [sp, #32]");
        push_line(&mut block, "    mov x29, sp");
        push_line(&mut block, "    sub x21, x1, x0");
        push_line(&mut block, "    cmp x21, #0");
        push_line(&mut block, "    b.lt .range_empty");
        push_line(&mut block, "    mov x19, x0");
        assert(crate::chars::views(block@) =~= runtime_part_23(l));
        self.emit_lines(&block);
    }

    /// Part 24 of the runtime routines.
    fn emit_runtime_part_24(&mut self)
        requires
            old(self).labels_made() + 0 <= usize::MAX,
        ensures
            final(self).lines() == old(self).lines() + runtime_part_24(old(self).labels_made()),
            gen_view(final(self)) == (GenView { labels: old(self).labels_made() + 0, ..gen_view(old(self)) }),
            final(self).frame() == old(self).frame(),
            final(self).slots() == old(self).slots(),
    {
        let ghost l = self.labels_made();
        let mut block: Vec<Vec<char>> = Vec::new();
        push_line(&mut block, "    mov x20, x1");
        push_line(&mut block, "    mov x0, #32");
        push_line(&mut block, "    bl _malloc");
        push_line(&mut block, "    mov x22, x0");
        push_line(&mut block, "    mov x25, #1");
        push_line(&mut block, "    str x25, [x22, #0]");
        push_line(&mut block, "    mov x25, #1");
        push_line(&mut block, "    str x25, [x22, #8]");
        push_line(&mut block, "    str x21, [x22, #16]");
        push_line(&mut block, "    lsl x0, x21, #3");
        push_line(&mut block, "    bl _malloc");
        push_line(&mut block, "    str x0, [x22, #24]");
        push_line(&mut block, "    mov x23, x0");
        push_line(&mut block, "    mov x24, #0");
        push_line(&mut block, ".range_loop:");
        push_line(&mut block, "    cmp x24, x21");
        push_line(&mut block, "    b.ge .range_done");
        push_line(&mut block, "    add x25, x19, x24");
        push_line(&mut block, "    lsl x26, x24, #3");
        push_line(&mut block, "    str x25, [x23, x26]");
        push_line(&mut block, "    add x24, x24, #1");
        push_line(&mut block, "    b .range_loop");
        push_line(&mut block, ".range_done:");
        push_line(&mut block, "    mov x0, x22");
        push_line(&mut block, "    ldp x21, x22, [sp, #32]");
        push_line(&mut block, "    ldp x19, x20, [sp, #16]");
        push_line(&mut block, "    ldp x29, x30, [sp], #48");
        push_line(&mut block, "    ret");
        push_line(&mut block, ".range_empty:");
        push_line(&mut block, "    mov x0, #0");
        assert(crate::chars::views(block@) =~= runtime_part_24(l));
        self.emit_lines(&block);
    }

    /// Part 25 of the runtime routines.
    fn emit_runtime_part_25(&mut self)
        requires
            old(self).labels_made() + 0 <= usize::MAX,
        ensures
            final(self).lines() == old(self).lines() + runtime_part_25(old(self).labels_made()),
            gen_view(final(self)) == (GenView { labels: old(self).labels_made() + 0, ..gen_view(old(self)) }),
            final(self).frame() == old(self).frame(),
            final(self).slots() == old(self).slots(),
    {
        let ghost l = self.labels_made();
        let mut block: Vec<Vec<char>> = Vec::new();
        push_line(&mut block, "    ldp x21, x22, [sp, #32]");
        push_line(&mut block, "    ldp x19, x20, [sp, #16]");
        push_line(&mut block, "    ldp x29, x30, [sp], #48");
        push_line(&mut block, "    ret");
        push_line(&mut block, "");
        push_line(&mut block, "_values:");
        push_line(&mut block, "    stp x29, x30, [sp, #-64]!");
        push_line(&mut block, "    stp x19, x20, [sp, #16]");
        push_line(&mut block, "    stp x21, x22, [sp, #32]");
        push_line(&mut block, "    stp x23, x24, [sp, #48]");
        push_line(&mut block, "    mov x29, sp");
        push_line(&mut block, "    cbz x0, .values_null");
        push_line(&mut block, "    ldr x19, [x0, #16]");
        push_line(&mut block, "    ldr x20, [x0, #24]");
        push_line(&mut block, "    mov x21, x19");
        push_line(&mut block, "    mov x0, #32");
        push_line(&mut block, "    bl _malloc");
        push_line(&mut block, "    mov x22, x0");
        push_line(&mut block, "    mov x25, #1");
        push_line(&mut block, "    str x25, [x22, #0]");
        push_line(&mut block, "    mov x25, #1");
        push_line(&mut block, "    str x25, [x22, #8]");
        push_line(&mut block, "    str x21, [x22, #16]");
        push_line(&mut block, "    lsl x0, x21, #3");
        push_line(&mut block, "    bl _malloc");
        push_line(&mut block, "    str x0, [x22, #24]");
        push_line(&mut block, "    mov x23, x0");
        push_line(&mut block, "    mov x24, #0");
        push_line(&mut block, ".values_loop:");
        push_line(&mut block, "    cmp x24, x21");
        assert(crate::chars::views(block@) =~= runtime_part_25(l));
        self.emit_lines(&block);
    }

    /// Part 26 of the runtime routines.
    fn emit_runtime_part_26(&mut self)
        requires
            old(self).labels_made() + 0 <= usize::MAX,
        ensures
            final(self).lines() == old(self).lines() + runtime_part_26(old(self).labels_made()),
            gen_view(final(self)) == (GenView { labels: old(self).labels_made() + 0, ..gen_view(old(self)) }),
            final(self).frame() == old(self).frame(),
            final(self).slots() == old(self).slots(),
    {
        let ghost l = self.labels_made();
        let mut block: Vec<Vec<char>> = Vec::new();
        push_line(&mut block, "    b.ge .values_done");
        push_line(&mut block, "    lsl x25, x24, #4");
        push_line(&mut block, "    add x25, x20, x25");
        push_line(&mut block, "    ldr x0, [x25, #8]");
        push_line(&mut block, "    bl _inc_rc");
        push_line(&mut block, "    lsl x25, x24, #3");
        push_line(&mut block, "    str x0, [x23, x25]");
        push_line(&mut block, "    add x24, x24, #1");
        push_line(&mut block, "    b .values_loop");
        push_line(&mut block, ".values_done:");
        push_line(&mut block, "    mov x0, x22");
        push_line(&mut block, "    ldp x23, x24, [sp, #48]");
        push_line(&mut block, "    ldp x21, x22, [sp, #32]");
        push_line(&mut block, "    ldp x19, x20, [sp, #16]");
        push_line(&mut block, "    ldp x29, x30, [sp], #64");
        push_line(&mut block, "    ret");
        push_line(&mut block, ".values_null:");
        push_line(&mut block, "    mov x0, #0");
        push_line(&mut block, "    ldp x23, x24, [sp, #48]");
        push_line(&mut block, "    ldp x21, x22, [sp, #32]");
        push_line(&mut block, "    ldp x19, x20, [sp, #16]");
        push_line(&mut block, "    ldp x29, x30, [sp], #64");
        push_line(&mut block, "    ret");
        push_line(&mut block, "");
        push_line(&mut block, "_get_index:");
        push_line(&mut block, "    stp x29, x30, [sp, #-64]!");
        push_line(&mut block, "    stp x19, x20, [sp, #16]");
        push_line(&mut block, "    stp x21, x22, [sp, #32]");
        push_line(&mut block, "    stp x23, x24, [sp, #48]");
        push_line(&mut block, "    mov x29, sp");
        assert(crate::chars::views(block@) =~= runtime_part_26(l));
        self.emit_lines(&block);
    }

    /// Part 27 of the runtime routines.
    fn emit_runtime_part_27(&mut self)
        requires
            old(self).labels_made() + 0 <= usize::MAX,
        ensures
            final(self).lines() == old(self).lines() + runtime_part_27(old(self).labels_made()),
            gen_view(final(self)) == (GenView { labels: old(self).labels_made() + 0, ..gen_view(old(self)) }),
            final(self).frame() == old(self).frame(),
            final(self).slots() == old(self).slots(),
    {
        let ghost l = self.labels_made();
        let mut block: Vec<Vec<char>> = Vec::new();
        push_line(&mut block, "    cbz x0, .get_null");
        push_line(&mut block, "    mov x19, x0");
        push_line(&mut block, "    mov x20, x1");
        push_line(&mut block, "    ldr x0, [x19, #0]");
        push_line(&mut block, "    cmp x0, #1");
        push_line(&mut block, "    b.eq .get_list");
        push_line(&mut block, "    cmp x0, #2");
        push_line(&mut block, "    b.eq .get_map");
        push_line(&mut block, "    b .get_null");
        push_line(&mut block, ".get_list:");
        push_line(&mut block, "    ldr x2, [x19, #16]");
        push_line(&mut block, "    cmp x20, x2");
        push_line(&mut block, "    b.ge .get_null");
        push_line(&mut block, "    ldr x2, [x19, #24]");
        push_line(&mut block, "    ldr x0, [x2, x20, lsl #3]");
        push_line(&mut block, "    bl _inc_rc");
        push_line(&mut block, "    ldp x23, x24, [sp, #48]");
        push_line(&mut block, "    ldp x21, x22, [sp, #32]");
        push_line(&mut block, "    ldp x19, x20, [sp, #16]");
        push_line(&mut block, "    ldp x29, x30, [sp], #64");
        push_line(&mut block, "    ret");
        push_line(&mut block, ".get_map:");
        push_line(&mut block, "    ldr x21, [x19, #16]");
        push_line(&mut block, "    ldr x22, [x19, #24]");
        push_line(&mut block, "    mov x23, #0");
        push_line(&mut block, ".map_get_loop:");
        push_line(&mut block, "    cmp x23, x21");
        push_line(&mut block, "    b.ge .get_null");
        push_line(&mut block, "    lsl x24, x23, #4");
        push_line(&mut block, "    add x24, x22, x24");
        assert(crate::chars::views(block@) =~= runtime_part_27(l));
        self.emit_lines(&block);
    }

    /// Part 28 of the runtime routines.
    fn emit_runtime_part_28(&mut self)
        requires
            old(self).labels_made() + 0 <= usize::MAX,
        ensures
            final(self).lines() == old(self).lines() + runtime_part_28(old(self).labels_made()),
            gen_view(final(self)) == (GenView { labels: old(self).labels_made() + 0, ..gen_view(old(self)) }),
            final(self).frame() == old(self).frame(),
            final(self).slots() == old(self).slots(),
    {
        let ghost l = self.labels_made();
        let mut block: Vec<Vec<char>> = Vec::new();
        push_line(&mut block, "    ldr x0, [x24, #0]");
        push_line(&mut block, "    mov x1, x20");
        push_line(&mut block, "    cmp x0, x1");
        push_line(&mut block, "    b.eq .map_get_found");
        push_line(&mut block, "    cmp x0, #0x1000");
        push_line(&mut block, "    b.lo .map_get_next");
        push_line(&mut block, "    cmp x1, #0x1000");
        push_line(&mut block, "    b.lo .map_get_next");
        push_line(&mut block, "    ldr x2, [x0, #0]");
        push_line(&mut block, "    cmp x2, #3");
        push_line(&mut block, "    b.ne .map_get_next");
        push_line(&mut block, "    ldr x2, [x1, #0]");
        push_line(&mut block, "    cmp x2, #3");
        push_line(&mut block, "    b.ne .map_get_next");
        push_line(&mut block, "    add x0, x0, #24");
        push_line(&mut block, "    add x1, x1, #24");
        push_line(&mut block, "    bl _strcmp");
        push_line(&mut block, "    cbz x0, .map_get_found");
        push_line(&mut block, ".map_get_next:");
        push_line(&mut block, "    add x23, x23, #1");
        push_line(&mut block, "    b .map_get_loop");
        push_line(&mut block, ".map_get_found:");
        push_line(&mut block, "    lsl x24, x23, #4");
        push_line(&mut block, "    add x24, x22, x24");
        push_line(&mut block, "    ldr x0, [x24, #8]");
        push_line(&mut block, "    bl _inc_rc");
        push_line(&mut block, "    ldp x23, x24, [sp, #48]");
        push_line(&mut block, "    ldp x21, x22, [sp, #32]");
        push_line(&mut block, "    ldp x19, x20, [sp, #16]");
        push_line(&mut block, "    ldp x29, x30, [sp], #64");
        assert(crate::chars::views(block@) =~= runtime_part_28(l));
        self.emit_lines(&block);
    }

    /// Part 29 of the runtime routines.
    fn emit_runtime_part_29(&mut self)
        requires
            old(self).labels_made() + 0 <= usize::MAX,
        ensures
            final(self).lines() == old(self).lines() + runtime_part_29(old(self).labels_made()),
            gen_view(final(self)) == (GenView { labels: old(self).labels_made() + 0, ..gen_view(old(self)) }),
            final(self).frame() == old(self).frame(),
            final(self).slots() == old(self).slots(),
    {
        let ghost l = self.labels_made();
        let mut block: Vec<Vec<char>> = Vec::new();
        push_line(&mut block, "    ret");
        push_line(&mut block, ".get_null:");
        push_line(&mut block, "    mov x0, #0");
        push_line(&mut block, "    ldp x23, x24, [sp, #48]");
        push_line(&mut block, "    ldp x21, x22, [sp, #32]");
        push_line(&mut block, "    ldp x19, x20, [sp, #16]");
        push_line(&mut block, "    ldp x29, x30, [sp], #64");
        push_line(&mut block, "    ret");
        push_line(&mut block, "");
        push_line(&mut block, "_spawn:");
        push_line(&mut block, "    // Async spawn not implemented in native codegen yet");
        push_line(&mut block, "    ret");
        push_line(&mut block, "");
        push_line(&mut block, "_await:");
        push_line(&mut block, "    // Async await not implemented in native codegen yet");
        push_line(&mut block, "    ret");
        push_line(&mut block, "");
        push_line(&mut block, "_sleep:");
        push_line(&mut block, "    // Sleep is a no-op in native/VM mode for now");
        push_line(&mut block, "    ret");
        push_line(&mut block, "");
        push_line(&mut block, "_alloc_file:");
        push_line(&mut block, "    // File allocation not implemented in native codegen yet");
        push_line(&mut block, "    mov x0, #0");
        push_line(&mut block, "    ret");
        push_line(&mut block, "");
        push_line(&mut block, "_close_file:");
        push_line(&mut block, "    // File close not implemented in native codegen yet");
        push_line(&mut block, "    ret");
        assert(crate::chars::views(block@) =~= runtime_part_29(l));
        self.emit_lines(&block);
    }
}

} // verus!
