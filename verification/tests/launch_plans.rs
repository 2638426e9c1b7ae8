use metal_attention::kernels::attention_plans::{
    plan_decode_attention, plan_flash_attention, plan_gqa_remap, plan_rope, plan_rope_apply,
};
use metal_attention::kernels::dispatch::{GridRule, Size3};
use metal_attention::kernels::element_plans::{
    plan_dequantize_q4_0, plan_embedding_lookup, plan_ffn_silu, plan_matmul, plan_matvec_q4_0,
    plan_residual_add, plan_rmsnorm, plan_rmsnorm_optimized,
};
use metal_attention::kernels::multi_pass_plans::{plan_linear_attention, plan_paged_attention};
use metal_attention::kernels::pipeline::PsoKey;
use metal_attention::kernels::program::{Arg, BufferInit, LaunchError, Operand, Program};
use metal_attention::kernels::recurrent_plans::{plan_prefix_sum, plan_rwkv_wkv, plan_ssm_scan};
use metal_attention::kernels::types::{AttentionParams, LayerParams};

const SCALE: u32 = 0x3E00_0000;

fn row(width: usize) -> Size3 {
    Size3 { width, height: 1, depth: 1 }
}

fn buffers(numbers: &[usize]) -> Vec<Arg> {
    numbers.iter().map(|n| Arg::Buffer(*n)).collect()
}

/// Checks the only pass of a program.
fn check_pass(program: &Program, key: PsoKey, args: Vec<Arg>, grid: GridRule) {
    assert_eq!(program.passes.len(), 1);
    assert_eq!(program.passes[0].key, key);
    assert_eq!(program.passes[0].args, args);
    assert_eq!(program.passes[0].grid, grid);
}

fn error_of(r: Result<Program, LaunchError>) -> LaunchError {
    r.err().unwrap()
}

#[test]
fn flash_attention() {
    let p = plan_flash_attention(80, 80, 80, 20, 4, 2, SCALE).unwrap();
    assert_eq!(
        p.buffers,
        vec![
            BufferInit::Upload(0),
            BufferInit::Upload(1),
            BufferInit::Upload(2),
            BufferInit::Empty(320),
            BufferInit::Attention(AttentionParams::flash(20, 4, 2, SCALE)),
        ]
    );
    let key = PsoKey::simple("flash_attention")
        .with_uint(0, 4)
        .with_uint(1, 16)
        .with_uint(2, 64)
        .with_bool(4, false);
    let groups = Size3 { width: 2, height: 2, depth: 1 };
    check_pass(
        &p,
        key,
        buffers(&[0, 1, 2, 3, 4]),
        GridRule::Groups { groups, group_width: 32 },
    );
    assert_eq!(p.results, vec![(3, 80)]);
    let length = LaunchError::LengthMismatch;
    assert_eq!(error_of(plan_flash_attention(79, 80, 80, 20, 4, 2, SCALE)), length(Operand::Q));
    assert_eq!(error_of(plan_flash_attention(80, 79, 80, 20, 4, 2, SCALE)), length(Operand::K));
    assert_eq!(error_of(plan_flash_attention(80, 80, 79, 20, 4, 2, SCALE)), length(Operand::V));
    assert_eq!(
        error_of(plan_flash_attention(0, 0, 0, usize::MAX, 4, 2, SCALE)),
        LaunchError::Overflow
    );
}

#[test]
fn decode_attention() {
    let p = plan_decode_attention(8, 40, 40, 4, 2, 2, 10, SCALE).unwrap();
    assert_eq!(p.buffers[3], BufferInit::Empty(32));
    let mut args = buffers(&[0, 1, 2, 3]);
    args.extend([4, 2, 2, 10, SCALE].map(Arg::Inline));
    check_pass(
        &p,
        PsoKey::simple("decode_attention"),
        args,
        GridRule::Groups { groups: row(4), group_width: 32 },
    );
    assert_eq!(p.results, vec![(3, 8)]);
    assert_eq!(
        error_of(plan_decode_attention(8, 8196, 8196, 4, 2, 2, 2049, SCALE)),
        LaunchError::TooLong
    );
    assert_eq!(
        error_of(plan_decode_attention(6, 40, 40, 3, 2, 2, 10, SCALE)),
        LaunchError::NotDivisible
    );
    assert_eq!(
        error_of(plan_decode_attention(8, 39, 40, 4, 2, 2, 10, SCALE)),
        LaunchError::LengthMismatch(Operand::KCache)
    );
}

#[test]
fn rotary_encoding() {
    let p = plan_rope(80, 80, 20, 4).unwrap();
    let threads = Size3 { width: 20, height: 2, depth: 1 };
    let group = Size3 { width: 16, height: 2, depth: 1 };
    check_pass(
        &p,
        PsoKey::simple("apply_rope"),
        buffers(&[0, 1, 2]),
        GridRule::Threads { threads, group },
    );
    assert_eq!(p.results, vec![(0, 80), (1, 80)]);
    assert_eq!(error_of(plan_rope(60, 60, 20, 3)), LaunchError::NotDivisible);

    let p = plan_rope_apply(8, 2, 4, 7, SCALE).unwrap();
    let mut args = buffers(&[0]);
    args.extend([2, 4, 7, SCALE].map(Arg::Inline));
    check_pass(
        &p,
        PsoKey::simple("rope_apply"),
        args,
        GridRule::Threads { threads: row(4), group: row(32) },
    );
    assert_eq!(p.results, vec![(0, 8)]);
    assert_eq!(
        error_of(plan_rope_apply(9, 2, 4, 7, SCALE)),
        LaunchError::LengthMismatch(Operand::Qk)
    );
}

#[test]
fn grouped_keys() {
    let p = plan_gqa_remap(40, 5, 4, 8, 2, SCALE).unwrap();
    assert_eq!(
        p.buffers,
        vec![
            BufferInit::Upload(0),
            BufferInit::Empty(640),
            BufferInit::Attention(AttentionParams::gqa(5, 4, 8, 2, SCALE)),
        ]
    );
    check_pass(
        &p,
        PsoKey::simple("gqa_remap"),
        buffers(&[0, 1, 2]),
        GridRule::Threads {
            threads: Size3 { width: 8, height: 5, depth: 4 },
            group: Size3 { width: 4, height: 4, depth: 4 },
        },
    );
    assert_eq!(p.results, vec![(1, 160)]);
    assert_eq!(error_of(plan_gqa_remap(40, 5, 4, 7, 2, SCALE)), LaunchError::NotDivisible);
}

#[test]
fn norms() {
    let p = plan_rmsnorm(12, 4, 3, 4, SCALE).unwrap();
    let params = LayerParams {
        hidden_dim: 4,
        rms_norm_eps: SCALE,
        seq_len: 3,
        ..LayerParams::default()
    };
    assert_eq!(p.buffers[3], BufferInit::Layer(params));
    check_pass(
        &p,
        PsoKey::simple("rmsnorm"),
        buffers(&[0, 1, 2, 3]),
        GridRule::ThreadsUpTo { total: 12, limit: 256 },
    );
    assert_eq!(p.results, vec![(2, 12)]);

    let p = plan_rmsnorm_optimized(576, 576, SCALE).unwrap();
    let mut args = buffers(&[0, 1, 2]);
    args.extend([576, SCALE].map(Arg::Inline));
    check_pass(
        &p,
        PsoKey::simple("rmsnorm_optimized"),
        args,
        GridRule::Groups { groups: row(1), group_width: 32 },
    );
    assert_eq!(
        error_of(plan_rmsnorm_optimized(575, 576, SCALE)),
        LaunchError::LengthMismatch(Operand::Weight)
    );
}

#[test]
fn feed_forward_and_embedding() {
    let p = plan_ffn_silu(12, 12, 3, 4).unwrap();
    assert_eq!(p.buffers[0], BufferInit::Empty(4));
    check_pass(
        &p,
        PsoKey::simple("ffn_silu"),
        buffers(&[0, 1, 2, 3, 4]),
        GridRule::ThreadsUpTo { total: 12, limit: 256 },
    );
    assert_eq!(p.results, vec![(3, 12)]);
    assert_eq!(
        error_of(plan_ffn_silu(12, 11, 3, 4)),
        LaunchError::LengthMismatch(Operand::Up)
    );

    let p = plan_embedding_lookup(3, 3, 4).unwrap();
    check_pass(
        &p,
        PsoKey::simple("embedding_lookup"),
        buffers(&[0, 1, 2, 3]),
        GridRule::ThreadsUpTo { total: 12, limit: 256 },
    );
    assert_eq!(
        error_of(plan_embedding_lookup(2, 3, 4)),
        LaunchError::LengthMismatch(Operand::TokenIds)
    );
}

#[test]
fn products() {
    let p = plan_matmul(6, 12, 2, 4, 3).unwrap();
    check_pass(
        &p,
        PsoKey::simple("matmul").with_uint(0, 2).with_uint(1, 4).with_uint(2, 3),
        buffers(&[0, 1, 2]),
        GridRule::ThreadsUpTo { total: 8, limit: 256 },
    );
    assert_eq!(p.results, vec![(2, 8)]);

    let p = plan_matvec_q4_0(108, 64, 3, 64).unwrap();
    let mut args = buffers(&[0, 1, 2]);
    args.extend([3, 64].map(Arg::Inline));
    check_pass(
        &p,
        PsoKey::simple("matvec_q4_0"),
        args,
        GridRule::Groups { groups: row(3), group_width: 32 },
    );
    assert_eq!(error_of(plan_matvec_q4_0(108, 63, 3, 63)), LaunchError::NotDivisible);
    assert_eq!(
        error_of(plan_matvec_q4_0(107, 64, 3, 64)),
        LaunchError::LengthMismatch(Operand::Weight)
    );
}

#[test]
fn dequantization_and_residual() {
    let p = plan_dequantize_q4_0(36, 2).unwrap();
    assert_eq!(p.buffers, vec![BufferInit::Upload(0), BufferInit::Empty(256)]);
    check_pass(
        &p,
        PsoKey::simple("dequantize_q4_0"),
        buffers(&[0, 1]),
        GridRule::ThreadsUpTo { total: 2, limit: 256 },
    );
    assert_eq!(p.results, vec![(1, 64)]);

    let p = plan_residual_add(5, 5).unwrap();
    let mut args = buffers(&[0, 1, 2]);
    args.push(Arg::Inline(5));
    check_pass(
        &p,
        PsoKey::simple("residual_add"),
        args,
        GridRule::Threads { threads: row(5), group: row(256) },
    );
    assert!(plan_residual_add(5, 6).is_err());
}

#[test]
fn recurrences() {
    let p = plan_ssm_scan(6, 6, 4, 4, 6, SCALE, 2, 3, 2).unwrap();
    assert_eq!(p.buffers[4], BufferInit::Word(SCALE));
    assert_eq!(p.buffers[7..], [2, 3, 2].map(BufferInit::Word));
    check_pass(
        &p,
        PsoKey::simple("ssm_scan"),
        buffers(&[0, 1, 2, 3, 4, 5, 6, 7, 8, 9]),
        GridRule::GroupsUpTo { groups: row(1), limit: 6 },
    );
    assert_eq!(p.results, vec![(6, 6), (5, 6)]);
    assert_eq!(
        error_of(plan_ssm_scan(6, 6, 4, 4, 5, SCALE, 2, 3, 2)),
        LaunchError::LengthMismatch(Operand::State)
    );

    let p = plan_rwkv_wkv(8, 8, 8, 8, 16, 2, 4).unwrap();
    check_pass(
        &p,
        PsoKey::simple("rwkv_wkv").with_uint(0, 4),
        buffers(&[0, 1, 2, 3, 4, 5, 6, 7]),
        GridRule::GroupsUpTo { groups: row(1), limit: 16 },
    );
    assert_eq!(p.results, vec![(5, 8), (4, 16)]);

    let p = plan_prefix_sum(12, 3, 2).unwrap();
    assert_eq!(p.buffers[2], BufferInit::WordPair(3, 2));
    check_pass(
        &p,
        PsoKey::simple("prefix_sum_matrices"),
        buffers(&[0, 1, 2]),
        GridRule::Covering { elements: 4 },
    );
    assert_eq!(error_of(plan_prefix_sum(0, 3, 0)), LaunchError::Empty);
}

#[test]
fn paged_attention() {
    let p = plan_paged_attention(80, 3, 20, 4, 16, 40, 2, SCALE).unwrap();
    // Two query blocks times two partitions of 16 rows.
    assert_eq!(p.buffers[3], BufferInit::Empty(64 * 4 * 4));
    assert_eq!(p.buffers[4], BufferInit::Empty(64 * 4));
    assert_eq!(p.buffers[5], BufferInit::Empty(64 * 4));
    assert_eq!(
        p.buffers[6],
        BufferInit::Attention(AttentionParams::paged(20, 4, 1, 16, 3, 40, 2, SCALE))
    );
    assert_eq!(p.passes.len(), 2);
    let key = |name: &str| PsoKey::simple(name).with_uint(0, 4).with_uint(1, 16);
    assert_eq!(p.passes[0].key, key("paged_attention_partition"));
    assert_eq!(p.passes[0].args, buffers(&[0, 1, 2, 3, 4, 5, 6]));
    assert_eq!(
        p.passes[0].grid,
        GridRule::Groups { groups: Size3 { width: 2, height: 2, depth: 1 }, group_width: 32 }
    );
    assert_eq!(p.passes[1].key, key("paged_attention_reduce"));
    assert_eq!(p.passes[1].args, buffers(&[3, 4, 5, 7, 6]));
    assert_eq!(p.passes[1].grid, GridRule::GroupsUpTo { groups: row(2), limit: 64 });
    assert_eq!(p.results, vec![(7, 80)]);
    assert_eq!(
        error_of(plan_paged_attention(81, 3, 20, 4, 16, 40, 2, SCALE)),
        LaunchError::LengthMismatch(Operand::Q)
    );
}

#[test]
fn linear_attention() {
    let p = plan_linear_attention(24, 24, 24, 6, 4, 2).unwrap();
    assert_eq!(p.num_chunks, 3);
    let key = |name: &str| PsoKey::simple(name).with_uint(0, 4).with_uint(4, 2);
    check_pass(
        &p.chunk_state,
        key("chunk_h"),
        buffers(&[0, 1, 2, 3]),
        GridRule::GroupsUpTo { groups: row(3), limit: 16 },
    );
    assert_eq!(p.chunk_state.results, vec![(2, 48)]);
    check_pass(
        &p.chunk_output,
        key("chunk_o"),
        buffers(&[0, 1, 2, 3]),
        GridRule::GroupsUpTo { groups: row(3), limit: 8 },
    );
    assert_eq!(p.chunk_output.results, vec![(2, 24)]);
    assert_eq!(
        plan_linear_attention(24, 24, 24, 6, 4, 4).err().unwrap(),
        LaunchError::NotDivisible
    );
    assert_eq!(
        plan_linear_attention(0, 0, 0, 0, 4, 2).err().unwrap(),
        LaunchError::Empty
    );
}

#[test]
fn row_blocks_cover_all_query_rows() {
    for (seq_len, blocks) in [(1, 1), (16, 1), (17, 2), (33, 3)] {
        let n = seq_len * 8;
        let flash = plan_flash_attention(n, n, n, seq_len, 8, 2, 0).unwrap();
        let groups = Size3 { width: blocks, height: 2, depth: 1 };
        assert_eq!(flash.passes[0].grid, GridRule::Groups { groups, group_width: 32 });
        assert!(blocks * 16 >= seq_len && (blocks - 1) * 16 < seq_len);
    }
}
