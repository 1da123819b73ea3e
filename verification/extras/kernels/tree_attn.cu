// Attention with a bit mask: bit `j` of a query's row says whether it sees context position `j`.
// One block for each query and head; shared memory holds the scores and a reduction.

#define NEG_INF (__int_as_float(0xff800000))

extern "C" __global__ void tree_decode_attention_f32(
    const float *q,
    const float *k_full,
    const float *v_full,
    const unsigned int *mask_bits,
    float *out,
    int q_tokens,
    int num_q_heads,
    int num_kv_heads,
    int head_dim,
    int ctx_len,
    int words_per_row,
    float attn_scale,
    float softcap
) {
    int qh = blockIdx.x;
    int qt = blockIdx.y;
    if (qh >= num_q_heads || qt >= q_tokens) return;
    int tid = threadIdx.x;
    int bdim = blockDim.x;

    extern __shared__ float smem[];
    float *scores  = smem;
    float *scratch = smem + ctx_len;

    int group = num_q_heads / (num_kv_heads > 0 ? num_kv_heads : 1);
    if (group < 1) group = 1;
    int kvh = qh / group;
    if (kvh >= num_kv_heads) kvh = num_kv_heads - 1;

    const float *q_vec = q + ((size_t)qt * num_q_heads + qh) * head_dim;
    const unsigned int *row_mask = mask_bits + (size_t)qt * words_per_row;

    for (int j = tid; j < ctx_len; j += bdim) {
        unsigned int w = row_mask[j >> 5];
        bool allowed = ((w >> (j & 31)) & 1u) != 0;
        if (!allowed) {
            scores[j] = NEG_INF;
            continue;
        }
        const float *k_vec = k_full + ((size_t)j * num_kv_heads + kvh) * head_dim;
        float dot = 0.f;
        for (int d = 0; d < head_dim; d++) {
            dot += q_vec[d] * k_vec[d];
        }
        float s = dot * attn_scale;
        if (softcap > 0.f) {
            s = softcap * tanhf(s / softcap);
        }
        scores[j] = s;
    }
    __syncthreads();

    float local_max = NEG_INF;
    for (int j = tid; j < ctx_len; j += bdim) {
        float v = scores[j];
        if (v > local_max) local_max = v;
    }
    scratch[tid] = local_max;
    __syncthreads();
    for (int stride = bdim / 2; stride > 0; stride >>= 1) {
        if (tid < stride) {
            float a = scratch[tid];
            float b = scratch[tid + stride];
            scratch[tid] = a > b ? a : b;
        }
        __syncthreads();
    }
    float row_max = scratch[0];

    float local_sum = 0.f;
    for (int j = tid; j < ctx_len; j += bdim) {
        float v = scores[j];
        float e = (v == NEG_INF) ? 0.f : __expf(v - row_max);
        scores[j] = e;
        local_sum += e;
    }
    scratch[tid] = local_sum;
    __syncthreads();
    for (int stride = bdim / 2; stride > 0; stride >>= 1) {
        if (tid < stride) scratch[tid] += scratch[tid + stride];
        __syncthreads();
    }
    float inv_sum = 1.f / scratch[0];

    float *out_vec = out + ((size_t)qt * num_q_heads + qh) * head_dim;
    for (int d = tid; d < head_dim; d += bdim) {
        float acc = 0.f;
        for (int j = 0; j < ctx_len; j++) {
            float w = scores[j];
            if (w == 0.f) continue;
            const float *v_vec = v_full + ((size_t)j * num_kv_heads + kvh) * head_dim;
            acc += w * inv_sum * v_vec[d];
        }
        out_vec[d] = acc;
    }
}
