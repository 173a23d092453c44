use arrayvec::ArrayVec;
use sem86_core::codegen::page::blocks::{
    break_loops, mark_entries, plan_blocks, set_checks, EndlessChain, NextInstr, NextOnPage,
};
use sem86_core::codegen::page::edges::{find_edges, JumpInfo, NextIp};
use sem86_core::codegen::page::graph::{components, reachable_from};
use sem86_core::codegen::page::jit::{cache_fits, request_action, HashKey, RequestAction};
use sem86_core::codegen::page::roots::Roots;
use sem86_core::codegen::page::{
    CacheEntryId, PageCode, PageExitToken, PageInstr, PageInstrWithEdges,
};
use sem86_core::codegen::see::{Compiled, SingleEncodingExecution};
use sem86_core::codegen::singlepass::aarch64::AArch64;
use sem86_core::codegen::singlepass::aarch64::Regs as ArmRegs;
use sem86_core::codegen::singlepass::x86_64::{Regs, X86};
use sem86_core::codegen::singlepass::emitter::{Emitter, LabelInU32};
use sem86_core::codegen::singlepass::{Label, SinglePass};
use sem86_core::system::{PartValues, SegmentSizes};

fn instr(offset: u16, is_entry: bool) -> PageInstr {
    PageInstr {
        is_entry,
        offset,
        encoding_index: 0,
        part_values: PartValues::all_zero(),
        instr_len: 2,
        protected_mode: false,
        segment_sizes: SegmentSizes::Cs16Ss16,
        next: ArrayVec::new(),
    }
}

fn jump(next: Vec<i128>) -> JumpInfo {
    JumpInfo {
        next_ips: Some(next.into_iter().map(NextIp::Relative).collect()),
        condition: None,
        invokes_handler: false,
    }
}

fn unknown() -> JumpInfo {
    JumpInfo { next_ips: None, condition: None, invokes_handler: false }
}

fn branch(if_zero: i128, if_nonzero: i128) -> JumpInfo {
    JumpInfo {
        next_ips: Some(vec![NextIp::Relative(if_zero), NextIp::Relative(if_nonzero)]),
        condition: Some((NextIp::Relative(if_zero), NextIp::Relative(if_nonzero))),
        invokes_handler: false,
    }
}

#[test]
fn edges_follow_jumps() {
    let instrs = vec![instr(0x10, true), instr(0x12, false), instr(0x14, false)];
    let jumps = vec![jump(vec![2]), branch(2, -2), unknown()];
    let edges = find_edges(&instrs, &jumps);
    assert_eq!(edges[0].succs, vec![1]);
    assert_eq!(edges[0].preds, vec![1]);
    assert_eq!(edges[1].succs, vec![2, 0]);
    assert!(!edges[1].make_split_point && edges[2].make_split_point);
    assert_eq!(edges[0].block_index, Some(0));
    assert_eq!(edges[1].block_index, None);
    assert_eq!(edges[2].block_index, Some(1));
    assert!(edges[2].may_jump_to_unknown_offset && edges[2].may_jump_to_out_of_page_instr);
}

#[test]
fn handlers_end_chains() {
    let instrs = vec![instr(0, true), instr(2, false)];
    let mut first = jump(vec![2]);
    first.invokes_handler = true;
    let blocks = plan_blocks(&instrs, &vec![first, jump(vec![5000])]).unwrap();
    assert_eq!(blocks.len(), 2);
    assert_eq!(blocks[0].instrs, vec![0]);
    assert!(blocks[0].next.is_empty() && blocks[1].next.is_empty());
}

#[test]
fn speculative_offsets_are_followed() {
    let mut first = instr(0, true);
    first.next = ArrayVec::from([8, 99]);
    let blocks = plan_blocks(&vec![first, instr(8, false)], &vec![unknown(), unknown()]).unwrap();
    match &blocks[0].next {
        NextOnPage::Speculative(list) => {
            assert_eq!(list, &vec![NextInstr { offset: 8, block_index: 1 }]);
        }
        other => panic!("{other:?}"),
    }
}

#[test]
fn loops_are_cut() {
    let mut instrs = vec![instr(0x10, true), instr(0x12, false), instr(0x14, false)];
    let jumps = vec![jump(vec![2]), branch(2, -2), unknown()];
    let mut blocks = plan_blocks(&instrs, &jumps).unwrap();
    assert_eq!(blocks[0].instrs, vec![0, 1]);
    match &blocks[0].next {
        NextOnPage::FromCondition { condition_nonzero, condition_zero } => {
            assert_eq!(*condition_nonzero, Some(NextInstr { offset: 0x10, block_index: 0 }));
            assert_eq!(*condition_zero, Some(NextInstr { offset: 0x14, block_index: 1 }));
        }
        other => panic!("{other:?}"),
    }
    set_checks(&mut blocks, &vec![true, true]);
    assert!(blocks[0].check_intr && !blocks[1].check_intr);
    set_checks(&mut blocks, &vec![false, false]);
    assert!(!blocks[0].check_intr);
    break_loops(&mut blocks);
    assert!(blocks[0].check_intr && blocks[0].export);
    assert!(blocks[1].export);
    mark_entries(&mut instrs, &blocks);
    assert!(instrs[0].is_entry && !instrs[1].is_entry && instrs[2].is_entry);
}

#[test]
fn endless_chains_are_reported() {
    let instrs = vec![instr(0, true), instr(2, false), instr(4, false)];
    let jumps = vec![jump(vec![2]), jump(vec![2]), jump(vec![-2])];
    match plan_blocks(&instrs, &jumps) {
        Err(EndlessChain) => {}
        Ok(blocks) => panic!("{blocks:?}"),
    }
}

fn node(preds: Vec<usize>, succs: Vec<usize>, split: bool) -> PageInstrWithEdges {
    PageInstrWithEdges {
        preds,
        succs,
        make_split_point: split,
        block_index: None,
        may_jump_to_out_of_page_instr: false,
        may_jump_to_unknown_offset: false,
    }
}

fn diamond(split: bool) -> Vec<PageInstrWithEdges> {
    vec![
        node(vec![], vec![1, 2], false),
        node(vec![0], vec![3], split),
        node(vec![0], vec![3], false),
        node(vec![1, 2], vec![], false),
    ]
}

#[test]
fn roots_divide_graphs() {
    let one = Roots::of(&diamond(false));
    assert_eq!(one.split(), vec![(0, vec![0, 1, 2, 3])]);
    let several = Roots::of(&diamond(true));
    assert_eq!(several.split(), vec![(0, vec![0, 2]), (1, vec![1]), (3, vec![3])]);
    assert_eq!(several.index(2), 0);
}

#[test]
fn loops_have_roots() {
    let edges = vec![
        node(vec![], vec![1], false),
        node(vec![0, 2], vec![2], false),
        node(vec![1], vec![1], false),
    ];
    let roots = Roots::of(&edges);
    assert_eq!((roots.index(0), roots.index(1), roots.index(2)), (0, 1, 2));
}

#[test]
fn components_come_in_order() {
    let succs = vec![vec![1], vec![2], vec![1, 3], vec![], vec![0]];
    let starts = vec![true, false, false, false, false];
    assert_eq!(components(&succs, &starts), vec![vec![0], vec![1, 2], vec![3]]);
    assert_eq!(reachable_from(&succs, 1), vec![false, true, true, true, false]);
}

#[test]
fn keys_are_digests() {
    let key = HashKey::of(&b"abc".to_vec());
    let text = "ba7816bf8f01cfea414140de5dae2223b00361a396177a9cb410ff61f20015ad";
    let parsed = HashKey::parse(text).unwrap();
    assert!(key.same(&parsed));
    assert_eq!(key.0[..4], [0xba, 0x78, 0x16, 0xbf]);
    assert!(HashKey::parse(&text.to_uppercase()).unwrap().same(&key));
    assert!(HashKey::parse("ba78").is_none());
    assert!(HashKey::parse(&text.replace('b', "g")).is_none());
    assert!(HashKey::parse(&text[1..]).is_none());
}

#[test]
fn requests_are_classified() {
    let key = HashKey([1; 32]);
    let other = HashKey([2; 32]);
    assert_eq!(request_action(&key, true, &Some(vec![])), RequestAction::SendCached);
    assert_eq!(request_action(&key, false, &Some(vec![other])), RequestAction::Skip);
    assert_eq!(request_action(&key, false, &Some(vec![other, key])), RequestAction::Compile);
    assert_eq!(request_action(&key, false, &None), RequestAction::Compile);
    assert!(cache_fits(&vec![1 << 29, 1 << 29]));
    assert!(!cache_fits(&vec![1 << 29, 1 << 29, 1]));
}

#[test]
fn page_code_is_sorted_by_name() {
    let ids = vec![CacheEntryId(7), CacheEntryId(8)];
    let functions = vec![("f_b".to_string(), 2), ("f_a".to_string(), 1)];
    let code = PageCode::from_result(functions, &ids);
    assert_eq!((code[0].0.as_str(), code[0].1.function().address), ("f_a", 1));
    assert_eq!((code[1].0.as_str(), code[1].1.function().address), ("f_b", 2));
    assert_eq!(code[0].1.ids(), &ids);
    assert_eq!(code[0].1.resolve_exit_token(PageExitToken::new_unchecked(1)), CacheEntryId(8));
}

#[test]
fn encodings_are_compiled_once() {
    let mut see = SingleEncodingExecution::new(4);
    let compiled = Compiled { function: 99, memory_usage: 1000 };
    assert_eq!(see.get_or_build(2, true, SegmentSizes::Cs32Ss16, || compiled), 99);
    let never = || -> Compiled { panic!("compiled twice") };
    assert_eq!(see.get_or_build(2, true, SegmentSizes::Cs32Ss32, never), 99);
    let other = Compiled { function: 5, memory_usage: 1100 };
    assert_eq!(see.get_or_build(2, false, SegmentSizes::Cs32Ss32, || other), 5);
    assert_eq!((see.num_compiled(), see.memory_usage()), (2, 1100));
}

#[test]
fn x86_code_is_assembled() {
    let mut s: SinglePass<X86> = SinglePass::new();
    let label = s.alloc_label();
    s.mov(Regs::Rcx, Regs::Rdx);
    let export = s.export();
    s.load_imm(Regs::Rax, 0);
    s.load_imm(Regs::Rcx, 0x1234_5678);
    s.push(Regs::Rdi);
    s.jump(label);
    s.load_imm_u8(Regs::Rsi, 7);
    s.mark_label(label);
    s.ret(Regs::Rcx);
    let code = s.build();
    assert_eq!(
        code.bytes,
        vec![
            0x48, 0x89, 0xd1, 0x31, 0xc0, 0xb9, 0x78, 0x56, 0x34, 0x12, 0x57, 0xe9, 3, 0, 0, 0,
            0x40, 0xb6, 7, 0x48, 0x89, 0xc8, 0xc3
        ]
    );
    assert_eq!(code.exports.get(export), 3);
}

#[test]
fn entry_points_are_behind_padding() {
    let mut p = SinglePass::<X86>::new();
    p.push(Regs::Rax);
    let data = p.export();
    let again = p.export();
    p.emit_aligned_data_u64(5);
    let code = p.export();
    p.ret(Regs::Rax);
    let end = p.export();
    let built = p.build();
    assert_eq!(built.exports.get(data), 8);
    assert_eq!(built.exports.get(again), 0);
    assert_eq!(built.exports.get(code), 16);
    assert_eq!(built.exports.get(end), 0);
    assert_eq!(built.bytes[16], 0xc3);
}

#[test]
fn data_is_aligned_behind_its_label() {
    let mut p = SinglePass::<X86>::new();
    let wide = p.alloc_label();
    let narrow = p.alloc_label();
    // call [rip + wide]
    p.call_rip_relative(wide);
    p.jump(narrow);
    p.mark_label(wide);
    p.emit_aligned_data_u64(0x1122_3344_5566_7788);
    p.ret(Regs::Rax);
    p.mark_label(narrow);
    p.emit_aligned_data_u32(0xaabb_ccdd);
    let code = p.build();
    let mut expected = vec![0xff, 0x15, 10, 0, 0, 0, 0xe9, 17, 0, 0, 0, 0, 0, 0, 0, 0];
    expected.extend([0x88, 0x77, 0x66, 0x55, 0x44, 0x33, 0x22, 0x11]);
    expected.extend([0xc3, 0, 0, 0, 0xdd, 0xcc, 0xbb, 0xaa]);
    assert_eq!(code.bytes, expected);
}

#[test]
fn pieces_of_any_length_are_emitted() {
    let mut e = Emitter::new();
    let long: Vec<u8> = (0..40).collect();
    e.emit(long.as_slice());
    e.emit(&[1u8, 2, 3]);
    e.emit([4u8; 20]);
    e.emit(5u8);
    assert_eq!(e.offset(), 64);
    e.mark_label(Label(0));
    e.emit(Label(0));
    e.emit(LabelInU32::new(Label(0), 0x1400_0000, 26, 0, 2));
    let bytes = e.finish::<AArch64>();
    assert_eq!(bytes[..40], long);
    assert_eq!(bytes[40..44], [1, 2, 3, 4]);
    assert_eq!(bytes[62..64], [4, 5]);
    assert_eq!(bytes[64..], [0, 0, 0, 0, 0xff, 0xff, 0xff, 0x17]);
}

#[test]
fn arm_code_is_assembled() {
    let mut s: SinglePass<AArch64> = SinglePass::new();
    let label = s.alloc_label();
    s.jump(label);
    s.mov(ArmRegs::X1, ArmRegs::X2);
    s.mark_label(label);
    s.jump(label);
    let code = s.build();
    assert_eq!(code.bytes[..4], [2, 0, 0, 0x14]);
    assert_eq!(code.bytes[8..], [0, 0, 0, 0x14]);
}
