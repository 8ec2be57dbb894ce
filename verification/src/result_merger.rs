//! Recombining partial results: the inverse of the splitter.
//!
//! Every partial result is a flat sequence of little-endian binary32
//! values. The merger's arithmetic runs on their bit patterns (see
//! `float_bits`), so each contract states exactly which combination of
//! additions and multiplications produced every output chunk.

use vstd::prelude::*;
use crate::bytes::{copy_bytes, le32_at, push_u32_le, read_u32_le, u32_le};
use crate::config::ModelInfo;
use crate::error::Error;
use crate::task_splitter::{compute_used, used_count, SplitStrategy};
use crate::float_bits::{
    f32_add, f32_add_bits, f32_div, f32_div_bits, f32_from_u32, f32_from_u32_bits, f32_mul,
    f32_mul_bits, F32_ONE_BITS,
};
use crate::types::GateWeights;

verus! {

/// The views of a sequence of byte vectors.
pub open spec fn byte_views(results: Seq<Vec<u8>>) -> Seq<Seq<u8>> {
    Seq::new(results.len(), |i: int| results[i]@)
}

/// Whether every partial has the length of the first.
pub open spec fn all_same_len(parts: Seq<Seq<u8>>) -> bool {
    forall|i: int| 0 <= i < parts.len() ==> (#[trigger] parts[i]).len() == parts[0].len()
}

/// All partials concatenated in order, first `n` of them.
pub open spec fn concat_all(parts: Seq<Seq<u8>>, n: int) -> Seq<u8>
    decreases n,
{
    if n <= 0 {
        Seq::empty()
    } else {
        concat_all(parts, n - 1) + parts[n - 1]
    }
}

/// The weighted accumulation of chunk `k` over the first `n` partials:
/// starting from the zero pattern, every partial contributes
/// `value * weight`, added in the order of the partials.
pub open spec fn expert_acc(parts: Seq<Seq<u8>>, weights: Seq<u32>, n: int, k: int) -> u32
    decreases n,
{
    if n <= 0 {
        0u32
    } else {
        f32_add_bits(
            expert_acc(parts, weights, n - 1, k),
            f32_mul_bits(le32_at(parts[n - 1], k), weights[n - 1]),
        )
    }
}

/// The first `nchunks` merged chunks of a weighted expert merge, as bytes.
pub open spec fn expert_chunks(
    parts: Seq<Seq<u8>>,
    weights: Seq<u32>,
    nexp: int,
    nchunks: int,
) -> Seq<u8>
    decreases nchunks,
{
    if nchunks <= 0 {
        Seq::empty()
    } else {
        expert_chunks(parts, weights, nexp, nchunks - 1) + u32_le(
            expert_acc(parts, weights, nexp, nchunks - 1),
        )
    }
}

/// The full weighted expert merge over partials of length `size`: the
/// whole chunks merged, and a trailing remainder of under 4 bytes left
/// zero (the accumulator starts from a zero buffer).
pub open spec fn expert_merge_bytes(parts: Seq<Seq<u8>>, weights: Seq<u32>, size: int) -> Seq<u8> {
    expert_chunks(parts, weights, parts.len() as int, size / 4) + Seq::new(
        (size - 4 * (size / 4)) as nat,
        |i: int| 0u8,
    )
}

/// The residual accumulation of chunk `k` over the first `n` partials:
/// the first partial's value, then each later partial added onto it in
/// order.
pub open spec fn layer_acc(parts: Seq<Seq<u8>>, n: int, k: int) -> u32
    decreases n,
{
    if n <= 1 {
        le32_at(parts[0], k)
    } else {
        f32_add_bits(layer_acc(parts, n - 1, k), le32_at(parts[n - 1], k))
    }
}

/// The first `nchunks` merged chunks of a residual layer merge, as bytes.
pub open spec fn layer_chunks(parts: Seq<Seq<u8>>, nlayers: int, nchunks: int) -> Seq<u8>
    decreases nchunks,
{
    if nchunks <= 0 {
        Seq::empty()
    } else {
        layer_chunks(parts, nlayers, nchunks - 1) + u32_le(layer_acc(parts, nlayers, nchunks - 1))
    }
}

/// The full residual layer merge: the whole chunks summed, and the
/// trailing remainder of under 4 bytes taken from the first partial.
pub open spec fn layer_merge_bytes(parts: Seq<Seq<u8>>) -> Seq<u8> {
    let size = parts[0].len() as int;
    layer_chunks(parts, parts.len() as int, size / 4) + parts[0].subrange(4 * (size / 4), size)
}

/// The merged chunks of an expert merge are 4 bytes per chunk.
proof fn lemma_expert_chunks_len(parts: Seq<Seq<u8>>, ws: Seq<u32>, nexp: int, nchunks: int)
    requires
        nchunks >= 0,
    ensures
        expert_chunks(parts, ws, nexp, nchunks).len() == 4 * nchunks,
    decreases nchunks,
{
    if nchunks > 0 {
        lemma_expert_chunks_len(parts, ws, nexp, nchunks - 1);
    }
}

/// The merged chunks of a layer merge are 4 bytes per chunk.
proof fn lemma_layer_chunks_len(parts: Seq<Seq<u8>>, nlayers: int, nchunks: int)
    requires
        nchunks >= 0,
    ensures
        layer_chunks(parts, nlayers, nchunks).len() == 4 * nchunks,
    decreases nchunks,
{
    if nchunks > 0 {
        lemma_layer_chunks_len(parts, nlayers, nchunks - 1);
    }
}

/// What a weighted expert merge returns, case by case.
pub open spec fn expert_result_post(
    parts: Seq<Seq<u8>>,
    ws: Seq<u32>,
    r: Result<Vec<u8>, Error>,
) -> bool {
    &&& (parts.len() == 0 ==> (r matches Err(e) && e is MergeError))
    &&& (parts.len() >= 1 && ws.len() != parts.len() ==> (r matches Err(e) && e matches
    Error::ShapeMismatch { index, expected, actual } && index == 0 && expected == parts.len()
        && actual == ws.len()))
    &&& (parts.len() >= 1 && ws.len() == parts.len() && !all_same_len(parts) ==> (r matches Err(e)
        && e matches Error::ShapeMismatch { index, expected, actual } && 1 <= index < parts.len()
        && expected == parts[0].len() && actual == parts[index as int].len() && actual
        != expected))
    &&& (parts.len() >= 1 && ws.len() == parts.len() && all_same_len(parts) ==> (r matches Ok(out)
        && out@ == expert_merge_bytes(parts, ws, parts[0].len() as int)))
}

/// What a residual layer merge returns, case by case.
pub open spec fn layer_result_post(parts: Seq<Seq<u8>>, r: Result<Vec<u8>, Error>) -> bool {
    &&& (parts.len() == 0 ==> (r matches Err(e) && e is MergeError))
    &&& (parts.len() >= 1 && !all_same_len(parts) ==> (r matches Err(e) && e matches
    Error::ShapeMismatch { index, expected, actual } && 1 <= index < parts.len() && expected
        == parts[0].len() && actual == parts[index as int].len() && actual != expected))
    &&& (parts.len() >= 1 && all_same_len(parts) ==> (r matches Ok(out) && out@
        == layer_merge_bytes(parts)))
}

/// What a batch merge returns, case by case.
pub open spec fn batch_result_post(parts: Seq<Seq<u8>>, r: Result<Vec<u8>, Error>) -> bool {
    &&& (parts.len() == 0 ==> (r matches Err(e) && e is MergeError))
    &&& (parts.len() >= 1 ==> (r matches Ok(out) && out@ == concat_all(
        parts,
        parts.len() as int,
    )))
}

/// Whether a weighted expert merge of `parts` under `ws` succeeds.
pub open spec fn expert_merge_ok(parts: Seq<Seq<u8>>, ws: Seq<u32>) -> bool {
    &&& parts.len() >= 1
    &&& ws.len() == parts.len()
    &&& all_same_len(parts)
}

/// Whether a residual layer merge of `parts` succeeds.
pub open spec fn layer_merge_ok(parts: Seq<Seq<u8>>) -> bool {
    &&& parts.len() >= 1
    &&& all_same_len(parts)
}

/// The group of partials belonging to layer `l` in a two-axis hybrid
/// merge: a contiguous range of `eu` partials.
pub open spec fn layer_group(parts: Seq<Seq<u8>>, eu: int, l: int) -> Seq<Seq<u8>> {
    parts.subrange(l * eu, (l + 1) * eu)
}

/// The bit pattern of the uniform gate weight `1 / n`.
pub open spec fn uniform_weight_bits(n: int) -> u32 {
    f32_div_bits(F32_ONE_BITS, f32_from_u32_bits(n as u32))
}

/// The effective gate weights of a hybrid merge over `eu` experts: the
/// first `eu` of the supplied weights (fewer if fewer were supplied), or
/// uniform `1 / eu` weights when none were supplied.
pub open spec fn hybrid_weights(gw: Option<GateWeights>, eu: int) -> Seq<u32> {
    match gw {
        Some(g) => if g.weights@.len() >= eu {
            g.weights@.take(eu)
        } else {
            g.weights@
        },
        None => Seq::new(eu as nat, |i: int| uniform_weight_bits(eu)),
    }
}

/// The per-layer expert merges of a two-axis hybrid merge.
pub open spec fn hybrid_layer_results(
    parts: Seq<Seq<u8>>,
    ws: Seq<u32>,
    lu: int,
    eu: int,
) -> Seq<Seq<u8>> {
    Seq::new(
        lu as nat,
        |l: int|
            expert_merge_bytes(
                layer_group(parts, eu, l),
                ws,
                layer_group(parts, eu, l)[0].len() as int,
            ),
    )
}

/// Whether every per-layer expert merge of a two-axis hybrid merge
/// succeeds.
pub open spec fn hybrid_groups_ok(parts: Seq<Seq<u8>>, ws: Seq<u32>, lu: int, eu: int) -> bool {
    forall|l: int| 0 <= l < lu ==> expert_merge_ok(#[trigger] layer_group(parts, eu, l), ws)
}

/// What a hybrid merge returns, case by case. The two-axis form groups
/// the partials by layer, merges each group as an expert merge, then
/// merges the per-layer results as a layer merge; a single-axis form
/// checks the used count and delegates to that axis's merge; with
/// neither axis it is the batch merge.
pub open spec fn hybrid_merge_post(
    m: ModelInfo,
    parts: Seq<Seq<u8>>,
    gw: Option<GateWeights>,
    es: bool,
    ls: bool,
    er: int,
    lr: int,
    r: Result<Vec<u8>, Error>,
) -> bool {
    let eu = used_count(m.num_experts as int, er);
    let lu = used_count(m.num_layers as int, lr);
    if es && ls {
        let ws = hybrid_weights(gw, eu);
        let lres = hybrid_layer_results(parts, ws, lu, eu);
        &&& (parts.len() != lu * eu ==> (r matches Err(e) && e matches Error::ShapeMismatch {
            index,
            expected,
            actual,
        } && index == 0 && expected == lu * eu && actual == parts.len()))
        &&& (parts.len() == lu * eu && !hybrid_groups_ok(parts, ws, lu, eu) ==> (r matches Err(e)
            && e is ShapeMismatch))
        &&& (parts.len() == lu * eu && hybrid_groups_ok(parts, ws, lu, eu) && !layer_merge_ok(lres)
            ==> (r matches Err(e) && (e is ShapeMismatch || e is MergeError)))
        &&& (parts.len() == lu * eu && hybrid_groups_ok(parts, ws, lu, eu) && layer_merge_ok(lres)
            ==> (r matches Ok(out) && out@ == layer_merge_bytes(lres)))
    } else if es {
        let ws = hybrid_weights(gw, eu);
        &&& (parts.len() != eu ==> (r matches Err(e) && e matches Error::ShapeMismatch {
            index,
            expected,
            actual,
        } && index == 0 && expected == eu && actual == parts.len()))
        &&& (parts.len() == eu ==> expert_result_post(parts, ws, r))
    } else if ls {
        &&& (parts.len() != lu ==> (r matches Err(e) && e matches Error::ShapeMismatch {
            index,
            expected,
            actual,
        } && index == 0 && expected == lu && actual == parts.len()))
        &&& (parts.len() == lu ==> layer_result_post(parts, r))
    } else {
        batch_result_post(parts, r)
    }
}

/// What `merge_results` returns for each strategy, over non-empty
/// partials.
pub open spec fn merge_post(
    m: ModelInfo,
    parts: Seq<Seq<u8>>,
    gw: Option<GateWeights>,
    s: SplitStrategy,
    r: Result<Vec<u8>, Error>,
) -> bool {
    match s {
        SplitStrategy::ByExpert => match gw {
            None => r matches Ok(out) && out@ == concat_all(parts, parts.len() as int),
            Some(g) => expert_result_post(parts, g.weights@, r),
        },
        SplitStrategy::ByLayer => layer_result_post(parts, r),
        SplitStrategy::ByBatch { .. } => batch_result_post(parts, r),
        SplitStrategy::Hybrid { expert_split, layer_split, expert_ratio, layer_ratio, .. } => hybrid_merge_post(
            m,
            parts,
            gw,
            expert_split,
            layer_split,
            expert_ratio as int,
            layer_ratio as int,
            r,
        ),
    }
}

/// The machine limits the hybrid merge arithmetic relies on.
pub open spec fn merge_req(m: ModelInfo, s: SplitStrategy) -> bool {
    s matches SplitStrategy::Hybrid { .. } ==> {
        &&& m.num_experts * 100 + 50 <= usize::MAX
        &&& m.num_layers * 100 + 50 <= usize::MAX
        &&& m.num_experts <= u32::MAX
        &&& m.num_experts * m.num_layers <= usize::MAX
    }
}

/// Recombines partial results into one, with strategy-specific
/// arithmetic.
pub struct ResultMerger {
    pub model_info: ModelInfo,
}

impl ResultMerger {
    pub fn new(model_info: ModelInfo) -> (m: Self)
        ensures
            m.model_info == model_info,
    {
        ResultMerger { model_info }
    }

    /// All partials joined in order, without arithmetic: the degraded
    /// expert merge used when no gate weights are given.
    pub fn concatenate_results(&self, results: &Vec<Vec<u8>>) -> (r: Result<Vec<u8>, Error>)
        ensures
            r matches Ok(out) && out@ == concat_all(byte_views(results@), results@.len() as int),
    {
        let mut merged: Vec<u8> = Vec::new();
        let n = results.len();
        for i in 0..n
            invariant
                n == results@.len(),
                merged@ == concat_all(byte_views(results@), i as int),
        {
            merged.extend_from_slice(results[i].as_slice());
        }
        Ok(merged)
    }

    /// Padding removal on the final batch chunk. The original input
    /// length is not recoverable from the padded bytes alone, so this is
    /// deliberately the identity on the data; the zero padding is kept.
    pub fn remove_padding(&self, result: &Vec<u8>) -> (r: Result<Vec<u8>, Error>)
        ensures
            r matches Ok(out) && out@ == result@,
    {
        let mut out: Vec<u8> = Vec::new();
        out.extend_from_slice(result.as_slice());
        proof {
            assert(out@ =~= result@);
        }
        Ok(out)
    }

    /// The weighted expert merge: every 4-byte chunk of each partial is
    /// read as a little-endian binary32 value and the products
    /// `value * weight` are accumulated per position, over every
    /// partial, in order.
    ///
    /// Fails with `MergeError` on no partials; with `ShapeMismatch` when
    /// the weight count differs from the partial count (`index` 0) or
    /// when a partial's length differs from the first's (`index` names
    /// the first such partial). Succeeds exactly otherwise.
    pub fn merge_expert_results(&self, results: &Vec<Vec<u8>>, gate_weights: &GateWeights) -> (r:
        Result<Vec<u8>, Error>)
        ensures
            expert_result_post(byte_views(results@), gate_weights.weights@, r),
    {
        let n = results.len();
        if n == 0 {
            return Err(Error::MergeError("nothing to merge".to_string()));
        }
        if n != gate_weights.weights.len() {
            return Err(
                Error::ShapeMismatch {
                    index: 0,
                    expected: n,
                    actual: gate_weights.weights.len(),
                },
            );
        }
        let size = results[0].len();
        for i in 1..n
            invariant
                n == results@.len(),
                n == gate_weights.weights@.len(),
                size == results@[0]@.len(),
                forall|j: int| 0 <= j < i ==> (#[trigger] results@[j]@).len() == size,
        {
            if results[i].len() != size {
                proof {
                    assert(byte_views(results@)[i as int].len() != byte_views(results@)[0].len());
                }
                return Err(
                    Error::ShapeMismatch { index: i, expected: size, actual: results[i].len() },
                );
            }
        }
        proof {
            assert(all_same_len(byte_views(results@)));
        }
        let ghost parts = byte_views(results@);
        let ghost ws = gate_weights.weights@;
        let nchunks = size / 4;
        let mut merged: Vec<u8> = Vec::new();
        for k in 0..nchunks
            invariant
                n == results@.len(),
                n >= 1,
                n == gate_weights.weights@.len(),
                size == results@[0]@.len(),
                nchunks == size as int / 4,
                parts == byte_views(results@),
                ws == gate_weights.weights@,
                forall|j: int| 0 <= j < n ==> (#[trigger] results@[j]@).len() == size,
                merged@ == expert_chunks(parts, ws, n as int, k as int),
        {
            let mut acc: u32 = 0;
            for i in 0..n
                invariant
                    n == results@.len(),
                    n == gate_weights.weights@.len(),
                    size == results@[0]@.len(),
                    nchunks == size as int / 4,
                    k < nchunks,
                    parts == byte_views(results@),
                    ws == gate_weights.weights@,
                    forall|j: int| 0 <= j < n ==> (#[trigger] results@[j]@).len() == size,
                    acc == expert_acc(parts, ws, i as int, k as int),
            {
                let w = gate_weights.weights[i];
                proof {
                    assert(4 * (k as int) + 4 <= 4 * (nchunks as int) <= size);
                }
                let v = read_u32_le(&results[i], k);
                acc = f32_add(acc, f32_mul(v, w));
            }
            push_u32_le(&mut merged, acc);
        }
        proof {
            lemma_expert_chunks_len(parts, ws, n as int, size as int / 4);
            assert(4 * (size as int / 4) <= size);
        }
        while merged.len() < size
            invariant
                merged@.len() >= 4 * (size as int / 4),
                merged@.len() <= size,
                expert_chunks(parts, ws, n as int, size as int / 4).len() == 4 * (size as int
                    / 4),
                merged@ =~= expert_chunks(parts, ws, n as int, size as int / 4) + Seq::new(
                    (merged@.len() - 4 * (size as int / 4)) as nat,
                    |i: int| 0u8,
                ),
            decreases size - merged@.len(),
        {
            merged.push(0u8);
            proof {
                assert(merged@ =~= expert_chunks(parts, ws, n as int, size as int / 4) + Seq::new(
                    (merged@.len() - 4 * (size as int / 4)) as nat,
                    |i: int| 0u8,
                ));
            }
        }
        proof {
            assert(merged@ =~= expert_merge_bytes(parts, ws, size as int));
        }
        Ok(merged)
    }

    /// The residual layer merge: the result starts as the first partial
    /// and every later partial is added onto it chunk by chunk, in order.
    ///
    /// Fails with `MergeError` on no partials and with `ShapeMismatch`
    /// when a partial's length differs from the first's; succeeds exactly
    /// otherwise.
    pub fn merge_layer_results(&self, results: &Vec<Vec<u8>>) -> (r: Result<Vec<u8>, Error>)
        ensures
            layer_result_post(byte_views(results@), r),
    {
        let n = results.len();
        if n == 0 {
            return Err(Error::MergeError("nothing to merge".to_string()));
        }
        let size = results[0].len();
        for i in 1..n
            invariant
                n == results@.len(),
                size == results@[0]@.len(),
                forall|j: int| 0 <= j < i ==> (#[trigger] results@[j]@).len() == size,
        {
            if results[i].len() != size {
                proof {
                    assert(byte_views(results@)[i as int].len() != byte_views(results@)[0].len());
                }
                return Err(
                    Error::ShapeMismatch { index: i, expected: size, actual: results[i].len() },
                );
            }
        }
        proof {
            assert(all_same_len(byte_views(results@)));
        }
        let ghost parts = byte_views(results@);
        let nchunks = size / 4;
        let mut merged: Vec<u8> = Vec::new();
        for k in 0..nchunks
            invariant
                n == results@.len(),
                n >= 1,
                size == results@[0]@.len(),
                nchunks == size as int / 4,
                parts == byte_views(results@),
                forall|j: int| 0 <= j < n ==> (#[trigger] results@[j]@).len() == size,
                merged@ == layer_chunks(parts, n as int, k as int),
        {
            proof {
                assert(4 * (k as int) + 4 <= 4 * (nchunks as int) <= size);
            }
            let mut acc: u32 = read_u32_le(&results[0], k);
            for i in 1..n
                invariant
                    n == results@.len(),
                    size == results@[0]@.len(),
                    nchunks == size as int / 4,
                    k < nchunks,
                    parts == byte_views(results@),
                    forall|j: int| 0 <= j < n ==> (#[trigger] results@[j]@).len() == size,
                    acc == layer_acc(parts, i as int, k as int),
            {
                proof {
                    assert(4 * (k as int) + 4 <= 4 * (nchunks as int) <= size);
                }
                let v = read_u32_le(&results[i], k);
                acc = f32_add(acc, v);
            }
            push_u32_le(&mut merged, acc);
        }
        proof {
            lemma_layer_chunks_len(parts, n as int, size as int / 4);
            assert(4 * (size as int / 4) <= size);
        }
        let mut j = nchunks * 4;
        while j < size
            invariant
                n >= 1,
                n == results@.len(),
                size == results@[0]@.len(),
                nchunks == size as int / 4,
                parts == byte_views(results@),
                4 * (size as int / 4) <= j <= size,
                layer_chunks(parts, n as int, size as int / 4).len() == 4 * (size as int / 4),
                merged@ =~= layer_chunks(parts, n as int, size as int / 4) + results@[0]@.subrange(
                    4 * (size as int / 4),
                    j as int,
                ),
            decreases size - j,
        {
            merged.push(results[0][j]);
            j = j + 1;
            proof {
                assert(merged@ =~= layer_chunks(parts, n as int, size as int / 4)
                    + results@[0]@.subrange(4 * (size as int / 4), j as int));
            }
        }
        proof {
            assert(merged@ =~= layer_merge_bytes(parts));
        }
        Ok(merged)
    }

    /// The batch merge: all chunks joined back in their original order.
    /// The final chunk keeps its zero padding (see `remove_padding`).
    ///
    /// Fails with `MergeError` exactly on no partials.
    pub fn merge_batch_results(&self, results: &Vec<Vec<u8>>) -> (r: Result<Vec<u8>, Error>)
        ensures
            batch_result_post(byte_views(results@), r),
    {
        let n = results.len();
        if n == 0 {
            return Err(Error::MergeError("nothing to merge".to_string()));
        }
        let mut merged: Vec<u8> = Vec::new();
        for i in 0..n
            invariant
                n == results@.len(),
                merged@ == concat_all(byte_views(results@), i as int),
        {
            if i == n - 1 {
                let stripped = match self.remove_padding(&results[i]) {
                    Ok(s) => s,
                    Err(e) => {
                        return Err(e);
                    },
                };
                merged.extend_from_slice(stripped.as_slice());
            } else {
                merged.extend_from_slice(results[i].as_slice());
            }
        }
        Ok(merged)
    }

    /// The effective gate weights of a hybrid merge over `eu` experts
    /// (see `hybrid_weights`).
    fn build_hybrid_weights(&self, gate_weights: &Option<GateWeights>, eu: usize) -> (r: Vec<u32>)
        requires
            eu <= u32::MAX,
        ensures
            r@ == hybrid_weights(*gate_weights, eu as int),
    {
        match gate_weights {
            Some(g) => {
                let take = if g.weights.len() >= eu {
                    eu
                } else {
                    g.weights.len()
                };
                let mut w: Vec<u32> = Vec::new();
                for i in 0..take
                    invariant
                        take <= g.weights@.len(),
                        w@ == g.weights@.subrange(0, i as int),
                {
                    w.push(g.weights[i]);
                    proof {
                        assert(w@ =~= g.weights@.subrange(0, i + 1));
                    }
                }
                proof {
                    assert(w@ =~= hybrid_weights(*gate_weights, eu as int));
                }
                w
            },
            None => {
                let ub = f32_div(F32_ONE_BITS, f32_from_u32(eu as u32));
                let mut w: Vec<u32> = Vec::new();
                for i in 0..eu
                    invariant
                        ub == uniform_weight_bits(eu as int),
                        w@ =~= Seq::new(i as nat, |j: int| uniform_weight_bits(eu as int)),
                {
                    w.push(ub);
                    proof {
                        assert(w@ =~= Seq::new(
                            (i + 1) as nat,
                            |j: int| uniform_weight_bits(eu as int),
                        ));
                    }
                }
                w
            },
        }
    }

    /// The hybrid merge: groups the partials by layer, merges each group
    /// as an expert merge under the effective gate weights, then merges
    /// the per-layer results as a layer merge; single-axis forms delegate
    /// to that axis's merge.
    fn merge_hybrid_results(
        &self,
        results: &Vec<Vec<u8>>,
        gate_weights: &Option<GateWeights>,
        expert_split: bool,
        layer_split: bool,
        expert_ratio: u32,
        layer_ratio: u32,
    ) -> (r: Result<Vec<u8>, Error>)
        requires
            results@.len() >= 1,
            expert_ratio <= 100,
            layer_ratio <= 100,
            self.model_info.num_experts * 100 + 50 <= usize::MAX,
            self.model_info.num_layers * 100 + 50 <= usize::MAX,
            self.model_info.num_experts <= u32::MAX,
            self.model_info.num_experts * self.model_info.num_layers <= usize::MAX,
        ensures
            hybrid_merge_post(
                self.model_info,
                byte_views(results@),
                *gate_weights,
                expert_split,
                layer_split,
                expert_ratio as int,
                layer_ratio as int,
                r,
            ),
    {
        let ghost parts = byte_views(results@);
        if expert_split && layer_split {
            let eu = compute_used(self.model_info.num_experts, expert_ratio);
            let lu = compute_used(self.model_info.num_layers, layer_ratio);
            proof {
                assert(lu * eu <= self.model_info.num_layers * self.model_info.num_experts)
                    by (nonlinear_arith)
                    requires
                        0 <= lu <= self.model_info.num_layers,
                        0 <= eu <= self.model_info.num_experts,
                ;
                assert(self.model_info.num_layers * self.model_info.num_experts
                    == self.model_info.num_experts * self.model_info.num_layers)
                    by (nonlinear_arith);
            }
            let expected = lu * eu;
            if results.len() != expected {
                return Err(
                    Error::ShapeMismatch { index: 0, expected, actual: results.len() },
                );
            }
            proof {
                assert(eu >= 1 && lu >= 1) by (nonlinear_arith)
                    requires
                        lu * eu >= 1,
                        lu >= 0,
                        eu >= 0,
                ;
            }
            let w = self.build_hybrid_weights(gate_weights, eu);
            let top_k = match gate_weights {
                Some(g) => if g.top_k < eu {
                    g.top_k
                } else {
                    eu
                },
                None => eu,
            };
            let gwu = GateWeights { weights: w, top_k };
            let ghost ws = hybrid_weights(*gate_weights, eu as int);
            let mut layer_results: Vec<Vec<u8>> = Vec::new();
            proof {
                assert(0int * eu == 0) by (nonlinear_arith);
            }
            for l in 0..lu
                invariant
                    expert_split,
                    layer_split,
                    results@.len() == lu * eu,
                    results@.len() <= usize::MAX,
                    eu == used_count(self.model_info.num_experts as int, expert_ratio as int),
                    lu == used_count(self.model_info.num_layers as int, layer_ratio as int),
                    eu >= 1,
                    lu >= 1,
                    lu * eu <= usize::MAX,
                    parts == byte_views(results@),
                    ws == hybrid_weights(*gate_weights, eu as int),
                    gwu.weights@ == ws,
                    layer_results@.len() == l,
                    forall|x: int|
                        0 <= x < l ==> expert_merge_ok(layer_group(parts, eu as int, x), ws),
                    forall|x: int|
                        0 <= x < l ==> (#[trigger] layer_results@[x])@ == hybrid_layer_results(
                            parts,
                            ws,
                            lu as int,
                            eu as int,
                        )[x],
            {
                proof {
                    lemma_grid_row_bounds(l as int, lu as int, eu as int);
                }
                let row_start = l * eu;
                let mut group: Vec<Vec<u8>> = Vec::new();
                for j in 0..eu
                    invariant
                        results@.len() == lu * eu,
                        results@.len() <= usize::MAX,
                        l < lu,
                        row_start == l * eu,
                        row_start + eu <= results@.len(),
                        parts == byte_views(results@),
                        group@.len() == j,
                        forall|q: int|
                            0 <= q < j ==> (#[trigger] group@[q])@ == results@[row_start
                                + q]@,
                {
                    group.push(copy_bytes(&results[row_start + j]));
                }
                proof {
                    assert((l + 1) * (eu as int) == l * (eu as int) + eu) by (nonlinear_arith);
                    assert(byte_views(group@) =~= layer_group(parts, eu as int, l as int));
                }
                let merged_layer = match self.merge_expert_results(&group, &gwu) {
                    Ok(v) => v,
                    Err(e) => {
                        proof {
                            assert(!expert_merge_ok(layer_group(parts, eu as int, l as int), ws));
                        }
                        return Err(e);
                    },
                };
                proof {
                    assert(merged_layer@ == hybrid_layer_results(
                        parts,
                        ws,
                        lu as int,
                        eu as int,
                    )[l as int]);
                }
                layer_results.push(merged_layer);
            }
            proof {
                assert(byte_views(layer_results@) =~= hybrid_layer_results(
                    parts,
                    ws,
                    lu as int,
                    eu as int,
                ));
            }
            self.merge_layer_results(&layer_results)
        } else if expert_split {
            let eu = compute_used(self.model_info.num_experts, expert_ratio);
            if results.len() != eu {
                return Err(Error::ShapeMismatch { index: 0, expected: eu, actual: results.len() });
            }
            let w = self.build_hybrid_weights(gate_weights, eu);
            let top_k = match gate_weights {
                Some(g) => if g.top_k < eu {
                    g.top_k
                } else {
                    eu
                },
                None => eu,
            };
            let gwu = GateWeights { weights: w, top_k };
            self.merge_expert_results(results, &gwu)
        } else if layer_split {
            let lu = compute_used(self.model_info.num_layers, layer_ratio);
            if results.len() != lu {
                return Err(Error::ShapeMismatch { index: 0, expected: lu, actual: results.len() });
            }
            self.merge_layer_results(results)
        } else {
            self.merge_batch_results(results)
        }
    }

    /// Merges the partial results of one split request.
    ///
    /// An empty set of partials always fails with `MergeError`, for every
    /// strategy. Otherwise the result is what `merge_post` states for the
    /// strategy: the weighted expert merge (or plain concatenation when
    /// no gate weights are given), the residual layer merge, the batch
    /// concatenation, or the grouped hybrid merge.
    pub fn merge_results(
        &self,
        results: &Vec<Vec<u8>>,
        gate_weights: Option<GateWeights>,
        strategy: &SplitStrategy,
    ) -> (r: Result<Vec<u8>, Error>)
        requires
            merge_req(self.model_info, *strategy),
            strategy.valid(self.model_info),
        ensures
            results@.len() == 0 ==> (r matches Err(e) && e is MergeError),
            results@.len() >= 1 ==> merge_post(
                self.model_info,
                byte_views(results@),
                gate_weights,
                *strategy,
                r,
            ),
    {
        if results.len() == 0 {
            return Err(Error::MergeError("nothing to merge".to_string()));
        }
        match strategy {
            SplitStrategy::ByExpert => {
                match &gate_weights {
                    None => self.concatenate_results(results),
                    Some(g) => self.merge_expert_results(results, g),
                }
            },
            SplitStrategy::ByLayer => self.merge_layer_results(results),
            SplitStrategy::ByBatch { .. } => self.merge_batch_results(results),
            SplitStrategy::Hybrid {
                expert_split,
                layer_split,
                expert_ratio,
                layer_ratio,
                ..
            } => self.merge_hybrid_results(
                results,
                &gate_weights,
                *expert_split,
                *layer_split,
                *expert_ratio,
                *layer_ratio,
            ),
        }
    }
}

/// Row `l` of an `lu x eu` grid lies within the grid.
proof fn lemma_grid_row_bounds(l: int, lu: int, eu: int)
    by (nonlinear_arith)
    requires
        0 <= l < lu,
        eu >= 0,
    ensures
        l * eu >= 0,
        l * eu + eu <= lu * eu,
{
}

} // verus!
