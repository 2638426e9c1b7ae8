//! What parameters, grids, buckets and keys come to.

use super::buffer::{
    bucket_is_least_power_of_two, bucket_of, bucket_size, last_serving, serves, serving_lengths,
    BufferPool, PoolBuffer,
};
use super::command::FrameSlots;
use super::dispatch::{
    ceil_div, dispatch_1d, dispatch_2d, groups_cover_exactly, smaller, Grid, GridRule,
};
use super::kv_cache::PAGE_SIZE;
use super::pipeline::{
    constant_models, word_bytes, ConstantType, ConstantValue, KeyModel, PsoCache, PsoKey,
};
use super::types::{AttentionParams, LayerParams, SSMParams};
use crate::float_laws::{bytes_spell, four_bytes};
use crate::gguf::bytes::{byte_ranges, le_round_trip};
use vstd::arithmetic::power2::{lemma2_to64, lemma_pow2_strictly_increases, pow2};
use vstd::prelude::*;

verus! {

/// The words of attention parameters: sizes, tiles, scale and variant, then those of paged
/// attention.
pub proof fn attention_words_are_in_order(p: AttentionParams, r: Vec<u32>)
    requires
        call_ensures(AttentionParams::to_words, (&p,), r),
    ensures
        r@.len() == 16,
        r@[0] == p.seq_len,
        r@[1] == p.head_dim,
        r@[2] == p.num_heads,
        r@[3] == p.num_kv_heads,
        r@[4] == p.block_r,
        r@[5] == p.block_c,
        r@[6] == p.scale,
        r@[7] == p.variant,
        r@[8] == p.page_size,
        r@[9] == p.num_pages,
        r@[10] == p.max_context_len,
        r@[11] == p.num_partitions,
        r@[12] == p._pad0,
        r@[13] == p._pad1,
        r@[14] == p._pad2,
        r@[15] == p._pad3,
{
}

/// The words of layer parameters: the model's sizes, the layer's place, and the sequence.
pub proof fn layer_words_are_in_order(p: LayerParams, r: Vec<u32>)
    requires
        call_ensures(LayerParams::to_words, (&p,), r),
    ensures
        r@.len() == 16,
        r@[0] == p.hidden_dim,
        r@[1] == p.intermediate_dim,
        r@[2] == p.num_heads,
        r@[3] == p.num_kv_heads,
        r@[4] == p.head_dim,
        r@[5] == p.vocab_size,
        r@[6] == p.layer_idx,
        r@[7] == p.num_layers,
        r@[8] == p.rms_norm_eps,
        r@[9] == p.rope_theta,
        r@[10] == p.seq_len,
        r@[11] == p.batch_size,
        r@[12] == p._pad0,
        r@[13] == p._pad1,
        r@[14] == p._pad2,
        r@[15] == p._pad3,
{
}

/// The words of state space parameters: sizes, the sequence, the convolution, and the place of the
/// layer.
pub proof fn ssm_words_are_in_order(p: SSMParams, r: Vec<u32>)
    requires
        call_ensures(SSMParams::to_words, (&p,), r),
    ensures
        r@.len() == 16,
        r@[0] == p.state_dim,
        r@[1] == p.hidden_dim,
        r@[2] == p.intermediate_dim,
        r@[3] == p.num_heads,
        r@[4] == p.head_dim,
        r@[5] == p.seq_len,
        r@[6] == p.batch_size,
        r@[7] == p.conv_width,
        r@[8] == p.dt_min,
        r@[9] == p.dt_max,
        r@[10] == p.layer_idx,
        r@[11] == p.num_layers,
        r@[12] == p._pad0,
        r@[13] == p._pad1,
        r@[14] == p._pad2,
        r@[15] == p._pad3,
{
}

/// Flash attention has the sizes that are given, and as many key heads as query heads.
pub proof fn flash_parameters_are_those_given(
    seq_len: u32,
    head_dim: u32,
    num_heads: u32,
    scale: u32,
    r: AttentionParams,
)
    requires
        call_ensures(
            AttentionParams::flash,
            (seq_len, head_dim, num_heads, scale),
            r,
        ),
    ensures
        r.seq_len == seq_len,
        r.head_dim == head_dim,
        r.num_heads == num_heads,
        r.num_kv_heads == num_heads,
        r.block_r == 16,
        r.block_c == 64,
        r.scale == scale,
        r.variant == 0,
        r.page_size == 16,
        r.num_pages == 0,
        r.max_context_len == 0,
        r.num_partitions == 1,
        r._pad0 == 0,
        r._pad1 == 0,
        r._pad2 == 0,
        r._pad3 == 0,
{
}

/// Grouped attention has the sizes that are given, and a variant of its own.
pub proof fn gqa_parameters_are_those_given(
    seq_len: u32,
    head_dim: u32,
    num_heads: u32,
    num_kv_heads: u32,
    scale: u32,
    r: AttentionParams,
)
    requires
        call_ensures(
            AttentionParams::gqa,
            (seq_len, head_dim, num_heads, num_kv_heads, scale),
            r,
        ),
    ensures
        r.seq_len == seq_len,
        r.head_dim == head_dim,
        r.num_heads == num_heads,
        r.num_kv_heads == num_kv_heads,
        r.block_r == 16,
        r.block_c == 64,
        r.scale == scale,
        r.variant == 3,
        r.page_size == 16,
        r.num_pages == 0,
        r.max_context_len == 0,
        r.num_partitions == 1,
        r._pad0 == 0,
        r._pad1 == 0,
        r._pad2 == 0,
        r._pad3 == 0,
{
}

/// Paged attention has the sizes and the pages that are given.
pub proof fn paged_parameters_are_those_given(
    seq_len: u32,
    head_dim: u32,
    num_heads: u32,
    page_size: u32,
    num_pages: u32,
    max_context_len: u32,
    num_partitions: u32,
    scale: u32,
    r: AttentionParams,
)
    requires
        call_ensures(
            AttentionParams::paged,
            (
                seq_len,
                head_dim,
                num_heads,
                page_size,
                num_pages,
                max_context_len,
                num_partitions,
                scale,
            ),
            r,
        ),
    ensures
        r.seq_len == seq_len,
        r.head_dim == head_dim,
        r.num_heads == num_heads,
        r.num_kv_heads == num_heads,
        r.block_r == 16,
        r.block_c == 64,
        r.scale == scale,
        r.variant == 0,
        r.page_size == page_size,
        r.num_pages == num_pages,
        r.max_context_len == max_context_len,
        r.num_partitions == num_partitions,
        r._pad0 == 0,
        r._pad1 == 0,
        r._pad2 == 0,
        r._pad3 == 0,
{
}

/// Where nothing else is given, parameters are those of common models: attention over 256 tokens
/// with one head of 64 dimensions, a layer of 4096 dimensions with 32 heads of 128, and 16 states
/// for each of 8192 channels.
pub proof fn parameters_have_defaults(
    attention: AttentionParams,
    layer: LayerParams,
    ssm: SSMParams,
)
    requires
        call_ensures(AttentionParams::default, (), attention),
        call_ensures(LayerParams::default, (), layer),
        call_ensures(SSMParams::default, (), ssm),
    ensures
        attention.seq_len == 256,
        attention.head_dim == 64,
        attention.num_heads == 1,
        attention.num_kv_heads == 1,
        attention.block_r == 16,
        attention.block_c == 64,
        attention.scale == 0x3E00_0000,
        attention.variant == 0,
        attention.page_size == 16,
        attention.page_size == PAGE_SIZE,
        attention.num_pages == 0,
        attention.max_context_len == 0,
        attention.num_partitions == 1,
        attention._pad0 == 0,
        attention._pad1 == 0,
        attention._pad2 == 0,
        attention._pad3 == 0,
        layer.hidden_dim == 4096,
        layer.intermediate_dim == 11008,
        layer.num_heads == 32,
        layer.num_kv_heads == 32,
        layer.head_dim == 128,
        layer.vocab_size == 32000,
        layer.layer_idx == 0,
        layer.num_layers == 32,
        layer.rms_norm_eps == 0x3727_C5AC,
        layer.rope_theta == 0x461C_4000,
        layer.seq_len == 256,
        layer.batch_size == 1,
        layer._pad0 == 0,
        layer._pad1 == 0,
        layer._pad2 == 0,
        layer._pad3 == 0,
        ssm.state_dim == 16,
        ssm.hidden_dim == 4096,
        ssm.intermediate_dim == 8192,
        ssm.num_heads == 1,
        ssm.head_dim == 64,
        ssm.seq_len == 256,
        ssm.batch_size == 1,
        ssm.conv_width == 4,
        ssm.dt_min == 0x3A83_126F,
        ssm.dt_max == 0x3DCC_CCCD,
        ssm.layer_idx == 0,
        ssm.num_layers == 32,
        ssm._pad0 == 0,
        ssm._pad1 == 0,
        ssm._pad2 == 0,
        ssm._pad3 == 0,
{
}

/// Whether `w` is the smaller of two numbers.
pub open spec fn is_smaller(w: usize, a: usize, b: usize) -> bool {
    w <= a && w <= b && (w == a || w == b)
}

/// The smaller of two sizes is not above either, and is one of them.
pub proof fn smaller_sizes_are_below_both(a: usize, b: usize, r: usize)
    requires
        call_ensures(smaller, (a, b), r),
    ensures
        is_smaller(r, a, b),
{
}

/// As many groups cover the elements as there have to be, and no more.
pub proof fn divided_sizes_cover(n: usize, size: usize, r: usize)
    requires
        size > 0,
        call_ensures(ceil_div, (n, size), r),
    ensures
        r * size >= n,
        r > 0 ==> (r - 1) * size < n,
{
    groups_cover_exactly(n as nat, size as nat);
    if n == 0 {
        assert((size - 1) as nat / size as nat == 0) by (nonlinear_arith)
            requires
                size > 0,
        ;
    }
}

/// A row of threads has the threads that are asked for, in groups of 256, or of as many as the
/// pipeline allows where these are fewer.
pub proof fn rows_of_threads_are_cut_in_groups(total: usize, max_threads: usize, r: Grid)
    requires
        call_ensures(dispatch_1d, (total, max_threads), r),
    ensures
        r matches Grid::Threads { threads, group } && {
            &&& threads.width == total && threads.height == 1 && threads.depth == 1
            &&& is_smaller(group.width, 256, max_threads)
            &&& group.height == 1 && group.depth == 1
        },
{
}

/// A grid rule comes to threads where it speaks of threads and to groups where it speaks of groups,
/// as many as it says. Groups are in a row, of the width that the rule gives, or of the largest up
/// to its limit that the pipeline allows. Groups that cover elements are as many as have to be.
pub proof fn rules_come_to_their_grids(rule: GridRule, max_threads: usize, r: Grid)
    requires
        rule matches GridRule::Covering { elements } ==> elements > 0 && max_threads > 0,
        call_ensures(GridRule::resolve, (&rule, max_threads), r),
    ensures
        rule matches GridRule::Threads { threads, group } ==> r == (Grid::Threads {
            threads,
            group,
        }),
        rule matches GridRule::ThreadsUpTo { total, limit } ==> r matches Grid::Threads {
            threads,
            group,
        } && {
            &&& threads.width == total && threads.height == 1 && threads.depth == 1
            &&& is_smaller(group.width, limit, max_threads)
            &&& group.height == 1 && group.depth == 1
        },
        rule matches GridRule::Groups { groups: asked, group_width } ==> r matches Grid::Groups {
            groups,
            group,
        } && {
            &&& groups == asked
            &&& group.width == group_width && group.height == 1 && group.depth == 1
        },
        rule matches GridRule::GroupsUpTo { groups: asked, limit } ==> r matches Grid::Groups {
            groups,
            group,
        } && {
            &&& groups == asked
            &&& is_smaller(group.width, limit, max_threads)
            &&& group.height == 1 && group.depth == 1
        },
        rule matches GridRule::Covering { elements } ==> r matches Grid::Groups {
            groups,
            group,
        } && {
            &&& groups.height == 1 && groups.depth == 1
            &&& is_smaller(group.width, elements, max_threads)
            &&& group.height == 1 && group.depth == 1
            &&& groups.width * group.width >= elements
            &&& (groups.width - 1) * group.width < elements
        },
{
    if let GridRule::Covering { elements } = rule {
        let width: usize = if elements <= max_threads {
            elements
        } else {
            max_threads
        };
        groups_cover_exactly(elements as nat, width as nat);
        let n: int = elements as int;
        let s: int = width as int;
        assert((n + s - 1) / s <= n) by (nonlinear_arith)
            requires
                1 <= s,
                1 <= n,
        ;
    }
}

/// A bucket is a power of two, at least 4096 and at least the size, and half of it would be too
/// small.
pub proof fn buckets_are_tight_powers_of_two(size: usize, r: usize)
    requires
        call_ensures(bucket_size, (size,), r),
    ensures
        exists|k: nat| k >= 12 && r == #[trigger] pow2(k),
        r >= size,
        r == 4096 || r < 2 * size,
{
    bucket_is_least_power_of_two(size as nat);
    lemma2_to64();
    let k: nat = choose|k: nat| bucket_of(size as nat) == #[trigger] pow2(k);
    if k < 12 {
        lemma_pow2_strictly_increases(k, 12);
    }
    if size <= 4096 {
        assert(bucket_of(size as nat) == 4096);
    }
}

/// Whether the buffer at `at` is the one that was released last, of those that are large enough
/// and no larger than the bucket.
pub open spec fn is_last_fit<B>(
    free: Seq<PoolBuffer<B>>,
    size: usize,
    bucket: usize,
    at: int,
) -> bool {
    &&& 0 <= at < free.len()
    &&& size <= free[at].length <= bucket
    &&& forall|j: int|
        at < j < free.len() ==> !(size <= (#[trigger] free[j]).length <= bucket)
}

proof fn last_serving_is_last_fit<B>(free: Seq<PoolBuffer<B>>, size: usize, bucket: usize)
    requires
        bucket == bucket_of(size as nat),
    ensures
        last_serving(free, size as nat) >= 0 ==> is_last_fit(
            free,
            size,
            bucket,
            last_serving(free, size as nat),
        ),
        last_serving(free, size as nat) < 0 ==> forall|j: int|
            0 <= j < free.len() ==> !(size <= (#[trigger] free[j]).length <= bucket),
        last_serving(free, size as nat) < free.len(),
    decreases free.len(),
{
    if free.len() > 0 {
        serving_lengths(free.last().length as nat, size as nat);
        if !serves(free.last().length as nat, size as nat) {
            let shorter: Seq<PoolBuffer<B>> = free.drop_last();
            last_serving_is_last_fit(shorter, size, bucket);
            let at: int = last_serving(free, size as nat);
            assert forall|j: int| at < j < free.len() && 0 <= j implies !(size <= (
            #[trigger] free[j]).length <= bucket) by {
                if j < shorter.len() {
                    assert(shorter[j] == free[j]);
                }
            }
        }
    }
}

/// A pool hands out the buffer that was released last, of those that fit, and then no longer has
/// it. Where none fits, a new one of the bucket's size is made, and the pool stays as it is.
pub proof fn pools_hand_out_the_last_fit<B, F: FnOnce(usize) -> B>(
    pool: &mut BufferPool<B>,
    size: usize,
    alloc: F,
    r: PoolBuffer<B>,
    bucket: usize,
    at: int,
)
    requires
        call_ensures(bucket_size, (size,), bucket),
        call_ensures(BufferPool::<B>::acquire::<F>, (pool, size, alloc), r),
    ensures
        r.length >= size,
        is_last_fit(old(pool)@, size, bucket, at) ==> r == old(pool)@[at] && final(pool)@ == old(
            pool,
        )@.remove(at),
        (forall|j: int|
            0 <= j < old(pool)@.len() ==> !(size <= (#[trigger] old(pool)@[j]).length <= bucket))
            ==> {
            &&& r.length == bucket
            &&& call_ensures(alloc, (bucket,), r.buffer)
            &&& final(pool)@ == old(pool)@
        },
{
    let free: Seq<PoolBuffer<B>> = old(pool)@;
    last_serving_is_last_fit(free, size, bucket);
    let found: int = last_serving(free, size as nat);
    if is_last_fit(free, size, bucket, at) {
        if found < at {
            assert(!(size <= free[at].length <= bucket));
        }
        if found > at {
            assert(!(size <= free[found].length <= bucket));
        }
    } else if found >= 0 {
        assert(size <= free[found].length <= bucket);
    }
}

/// A released buffer comes behind those that were free before. A new pool and a cleared one have
/// none.
pub proof fn released_buffers_come_last<B>(
    pool: &mut BufferPool<B>,
    buffer: PoolBuffer<B>,
    count: usize,
    count_before: usize,
    fresh: BufferPool<B>,
    fresh_count: usize,
    cleared: &mut BufferPool<B>,
    cleared_count: usize,
)
    requires
        call_ensures(BufferPool::<B>::new, (), fresh),
        call_ensures(BufferPool::<B>::free_count, (&fresh,), fresh_count),
        call_ensures(BufferPool::<B>::clear, (cleared,), ()),
        call_ensures(BufferPool::<B>::free_count, (&*final(cleared),), cleared_count),
        call_ensures(BufferPool::<B>::free_count, (&*old(pool),), count_before),
        call_ensures(BufferPool::<B>::release, (pool, buffer), ()),
        call_ensures(BufferPool::<B>::free_count, (&*final(pool),), count),
    ensures
        fresh_count == 0,
        cleared_count == 0,
        count == count_before + 1,
        final(pool)@.last() == buffer,
        final(pool)@.drop_last() == old(pool)@,
{
    assert(final(pool)@.drop_last() =~= old(pool)@);
}

/// A frame begins exactly if a slot is free, and takes it; a completed frame gives one back.
pub proof fn frames_take_and_give_slots(
    beginning: &mut FrameSlots,
    began: bool,
    completing: &mut FrameSlots,
    max_in_flight: u32,
    fresh: FrameSlots,
    default: FrameSlots,
    max: u32,
)
    requires
        call_ensures(FrameSlots::begin_frame, (beginning,), began),
        old(completing).available < u64::MAX,
        call_ensures(FrameSlots::complete_frame, (completing,), ()),
        call_ensures(FrameSlots::with_in_flight, (max_in_flight,), fresh),
        call_ensures(FrameSlots::new, (), default),
        call_ensures(FrameSlots::max_in_flight, (&fresh,), max),
    ensures
        began <==> old(beginning).available > 0,
        began ==> final(beginning).available + 1 == old(beginning).available,
        !began ==> final(beginning).available == 0,
        final(beginning).max_in_flight == old(beginning).max_in_flight,
        final(completing).available == old(completing).available + 1,
        final(completing).max_in_flight == old(completing).max_in_flight,
        fresh.available == max_in_flight,
        max == max_in_flight,
        default.available == 3,
        default.max_in_flight == 3,
{
}

/// Whether a key has one constant more, behind those that it had, and is otherwise the same.
pub open spec fn has_one_more(before: PsoKey, after: PsoKey) -> bool {
    &&& after.function_name@ == before.function_name@
    &&& after.constants@.len() == before.constants@.len() + 1
    &&& forall|i: int|
        0 <= i < before.constants@.len() ==> (#[trigger] after.constants@[i]).model()
            == before.constants@[i].model()
}

/// Whether a constant is set by index to the number that its bytes spell.
pub open spec fn sets_index(
    c: ConstantValue,
    at: usize,
    tag: ConstantType,
    length: nat,
    value: nat,
) -> bool {
    c matches ConstantValue::Index { index, type_tag, bytes } && {
        &&& index == at
        &&& type_tag == tag
        &&& bytes@.len() == length
        &&& spelled(bytes@) == value
    }
}

/// Whether a constant is set by name to the number that its bytes spell.
pub open spec fn sets_name(
    c: ConstantValue,
    called: Seq<char>,
    tag: ConstantType,
    length: nat,
    value: nat,
) -> bool {
    c matches ConstantValue::Named { name, type_tag, bytes } && {
        &&& name@ == called
        &&& type_tag == tag
        &&& bytes@.len() == length
        &&& spelled(bytes@) == value
    }
}

/// The number that the one or four bytes of a constant spell.
pub open spec fn spelled(bytes: Seq<u8>) -> nat {
    if bytes.len() == 4 {
        four_bytes(bytes, 0)
    } else {
        bytes[0] as nat
    }
}

proof fn one_more_constant(before: PsoKey, after: PsoKey)
    requires
        after.model().function_name == before.model().function_name,
        after.model().constants.drop_last() == before.model().constants,
        after.model().constants.len() > 0,
    ensures
        has_one_more(before, after),
        after.constants@.last().model() == after.model().constants.last(),
{
    assert(constant_models(after.constants@).len() == after.constants@.len());
    assert(constant_models(before.constants@).len() == before.constants@.len());
    assert forall|i: int| 0 <= i < before.constants@.len() implies (
    #[trigger] after.constants@[i]).model() == before.constants@[i].model() by {
        assert(after.model().constants.drop_last()[i] == before.model().constants[i]);
    }
}

proof fn word_is_spelled(value: u32)
    ensures
        word_bytes(value).len() == 4,
        spelled(word_bytes(value)) == value,
{
    byte_ranges();
    le_round_trip(value as nat, 4);
    let bytes: Seq<u8> = word_bytes(value);
    bytes_spell(bytes, 0);
    assert(bytes.subrange(0, 4) =~= bytes);
}

/// Adding an integer by index adds that constant, last.
pub proof fn with_uint_adds_its_constant(key: PsoKey, index: usize, value: u32, r: PsoKey)
    requires
        call_ensures(PsoKey::with_uint, (key, index, value), r),
    ensures
        has_one_more(key, r),
        sets_index(
            r.constants@.last(),
            index,
            ConstantType::UInt,
            4,
            value as nat,
        ),
{
    word_is_spelled(value);
    assert(r.model().constants.drop_last() =~= key.model().constants);
    one_more_constant(key, r);
}

/// Adding a float by index adds that constant, last.
pub proof fn with_float_adds_its_constant(key: PsoKey, index: usize, value: u32, r: PsoKey)
    requires
        call_ensures(PsoKey::with_float, (key, index, value), r),
    ensures
        has_one_more(key, r),
        sets_index(
            r.constants@.last(),
            index,
            ConstantType::Float,
            4,
            value as nat,
        ),
{
    word_is_spelled(value);
    assert(r.model().constants.drop_last() =~= key.model().constants);
    one_more_constant(key, r);
}

/// Adding a flag by index adds that constant, last.
pub proof fn with_bool_adds_its_constant(key: PsoKey, index: usize, value: bool, r: PsoKey)
    requires
        call_ensures(PsoKey::with_bool, (key, index, value), r),
    ensures
        has_one_more(key, r),
        sets_index(
            r.constants@.last(),
            index,
            ConstantType::Bool,
            1,
            if value { 1nat } else { 0nat },
        ),
{
    assert(r.model().constants.drop_last() =~= key.model().constants);
    one_more_constant(key, r);
}

/// Adding an integer by name adds that constant, last.
pub proof fn with_named_uint_adds_its_constant(key: PsoKey, name: &str, value: u32, r: PsoKey)
    requires
        call_ensures(PsoKey::with_named_uint, (key, name, value), r),
    ensures
        has_one_more(key, r),
        sets_name(
            r.constants@.last(),
            name@,
            ConstantType::UInt,
            4,
            value as nat,
        ),
{
    word_is_spelled(value);
    assert(r.model().constants.drop_last() =~= key.model().constants);
    one_more_constant(key, r);
}

/// Adding a float by name adds that constant, last.
pub proof fn with_named_float_adds_its_constant(key: PsoKey, name: &str, value: u32, r: PsoKey)
    requires
        call_ensures(PsoKey::with_named_float, (key, name, value), r),
    ensures
        has_one_more(key, r),
        sets_name(
            r.constants@.last(),
            name@,
            ConstantType::Float,
            4,
            value as nat,
        ),
{
    word_is_spelled(value);
    assert(r.model().constants.drop_last() =~= key.model().constants);
    one_more_constant(key, r);
}

/// Adding a flag by name adds that constant, last.
pub proof fn with_named_bool_adds_its_constant(key: PsoKey, name: &str, value: bool, r: PsoKey)
    requires
        call_ensures(PsoKey::with_named_bool, (key, name, value), r),
    ensures
        has_one_more(key, r),
        sets_name(
            r.constants@.last(),
            name@,
            ConstantType::Bool,
            1,
            if value { 1nat } else { 0nat },
        ),
{
    assert(r.model().constants.drop_last() =~= key.model().constants);
    one_more_constant(key, r);
}

/// A key starts with the name of its kernel and no constants.
pub proof fn simple_keys_have_no_constants(name: &str, r: PsoKey)
    requires
        call_ensures(PsoKey::simple, (name,), r),
    ensures
        r.function_name@ == name@,
        r.constants@.len() == 0,
{
    assert(constant_models(r.constants@).len() == r.constants@.len());
}

/// Two constants are the same exactly if they are set in the same way, are of the same type, and
/// have the same bytes.
pub proof fn same_constants_have_the_same_parts(a: ConstantValue, b: ConstantValue, r: bool)
    requires
        call_ensures(ConstantValue::same_as, (&a, &b), r),
    ensures
        r <==> {
            ||| (a is Index && b is Index && a->index == b->index && a->Index_type_tag
                == b->Index_type_tag && a->Index_bytes@ == b->Index_bytes@)
            ||| (a is Named && b is Named && a->name@ == b->name@ && a->Named_type_tag
                == b->Named_type_tag && a->Named_bytes@ == b->Named_bytes@)
        },
{
}

/// Two keys are the same exactly if they have the same name and the same constants in order.
pub proof fn same_keys_have_the_same_parts(a: PsoKey, b: PsoKey, r: bool)
    requires
        call_ensures(PsoKey::same_as, (&a, &b), r),
    ensures
        r <==> a.function_name@ == b.function_name@ && a.constants@.len() == b.constants@.len()
            && forall|i: int|
            0 <= i < a.constants@.len() ==> (#[trigger] a.constants@[i]).model()
                == b.constants@[i].model(),
{
    let x: KeyModel = a.model();
    let y: KeyModel = b.model();
    assert(x.constants.len() == a.constants@.len());
    assert(y.constants.len() == b.constants@.len());
    if a.function_name@ == b.function_name@ && a.constants@.len() == b.constants@.len() && forall|
        i: int,
    |
        0 <= i < a.constants@.len() ==> (#[trigger] a.constants@[i]).model()
            == b.constants@[i].model() {
        assert forall|i: int| 0 <= i < x.constants.len() implies x.constants[i]
            == y.constants[i] by {
            assert(a.constants@[i].model() == b.constants@[i].model());
        }
        assert(x.constants =~= y.constants);
        assert(x == y);
    }
    if x == y {
        assert forall|i: int| 0 <= i < a.constants@.len() implies (
        #[trigger] a.constants@[i]).model() == b.constants@[i].model() by {
            assert(x.constants[i] == y.constants[i]);
        }
    }
}

/// A pipeline that was got for a key is found under it from then on. One that was there is given
/// as it is, one that was not is compiled, and what is found under other keys does not change.
pub proof fn pipelines_are_compiled_once<P, F: FnOnce(&PsoKey) -> P>(
    cache: &mut PsoCache<P>,
    key: PsoKey,
    compile: F,
    r: &P,
    other: PsoKey,
    before: Option<&P>,
    after: Option<&P>,
    other_before: Option<&P>,
    other_after: Option<&P>,
)
    requires
        call_ensures(PsoCache::<P>::get, (&*old(cache), &key), before),
        call_ensures(PsoCache::<P>::get, (&*old(cache), &other), other_before),
        call_ensures(PsoCache::<P>::get_or_compile::<F>, (cache, &key, compile), r),
        call_ensures(PsoCache::<P>::get, (&*final(cache), &key), after),
        call_ensures(PsoCache::<P>::get, (&*final(cache), &other), other_after),
    ensures
        before matches Some(p) ==> *r == *p,
        before is None ==> call_ensures(compile, (&key,), *r),
        after matches Some(p) && *p == *r,
        other.model() != key.model() ==> (other_after is Some <==> other_before is Some),
        other.model() != key.model() ==> (other_before matches Some(p) ==> other_after matches Some(
            q,
        ) && *q == *p),
{
}

/// A plane of threads has the threads that are asked for, in the largest square groups of at most
/// 16 by 16 that the pipeline allows.
pub proof fn planes_of_threads_are_cut_in_squares(
    width: usize,
    height: usize,
    max_threads: usize,
    r: Grid,
    side: int,
)
    requires
        call_ensures(dispatch_2d, (width, height, max_threads), r),
    ensures
        r matches Grid::Threads { threads, group } && {
            &&& threads.width == width && threads.height == height && threads.depth == 1
            &&& group.width == group.height && group.depth == 1
            &&& group.width <= 16
            &&& group.width * group.height <= max_threads
            &&& 0 <= side <= 16 && side * side <= max_threads ==> side <= group.width
        },
{
    if let Grid::Threads { threads, group } = r {
        let w: int = group.width as int;
        if 0 <= side <= 16 && side * side <= max_threads && side > w {
            assert((w + 1) * (w + 1) <= side * side) by (nonlinear_arith)
                requires
                    0 <= w,
                    w + 1 <= side,
            ;
        }
    }
}

/// A new cache and a cleared one have no pipelines.
pub proof fn cleared_caches_are_empty<P>(
    fresh: PsoCache<P>,
    cache: &mut PsoCache<P>,
    key: PsoKey,
    in_fresh: Option<&P>,
    in_cleared: Option<&P>,
    is_empty: bool,
    fresh_len: usize,
    cleared_len: usize,
)
    requires
        call_ensures(PsoCache::<P>::len, (&fresh,), fresh_len),
        call_ensures(PsoCache::<P>::len, (&*final(cache),), cleared_len),
        call_ensures(PsoCache::<P>::new, (), fresh),
        call_ensures(PsoCache::<P>::get, (&fresh, &key), in_fresh),
        call_ensures(PsoCache::<P>::clear, (cache,), ()),
        call_ensures(PsoCache::<P>::get, (&*final(cache), &key), in_cleared),
        call_ensures(PsoCache::<P>::is_empty, (&*final(cache),), is_empty),
    ensures
        in_fresh is None,
        in_cleared is None,
        is_empty,
        fresh_len == 0,
        cleared_len == 0,
{
}

} // verus!
