// Causal attention of a run of positions whose keys and values are in the slabs.

#define NEG_INF (__int_as_float(0xff800000))

__device__ float ld_kvc_pf(const unsigned short* p) {
    float f;
    asm("cvt.f32.f16 %0, %1;" : "=f"(f) : "h"(p[0]));
    return f;
}

extern "C" __global__ void fused_prefill_attention_f32(
    const float* q_seq,
    const unsigned short* k_cache,
    const unsigned short* v_cache,
    const float* q_norm,
    float* out_seq,
    int num_q_heads,
    int num_kv_heads,
    int head_dim,
    const int* base_pos_dev,
    int seq_len,
    int max_seq,
    int rotary_dim,
    float rope_base,
    float eps,
    float qk_norm_offset,
    float attn_scale,
    float softcap,
    int use_qk_norm
) {
    int qh = blockIdx.x;
    int sp = blockIdx.y;
    if (qh >= num_q_heads || sp >= seq_len) return;
    int pos = (*base_pos_dev) + sp;
    if (pos >= max_seq) return;

    int tid = threadIdx.x;
    int bdim = blockDim.x;
    extern __shared__ float smem[];
    float* scores  = smem;
    float* scratch = smem + max_seq;
    float* q_rot   = smem + max_seq + bdim;

    int group = max(1, num_q_heads / max(1, num_kv_heads));
    int kvh = min(num_kv_heads - 1, qh / group);
    const float* q_head = q_seq + (size_t)(sp * num_q_heads + qh) * head_dim;

    float q_ss = 0.f;
    for (int d = tid; d < head_dim; d += bdim) {
        float qv = q_head[d];
        q_ss += qv * qv;
    }
    scratch[tid] = q_ss;
    __syncthreads();
    for (int stride = bdim / 2; stride > 0; stride >>= 1) {
        if (tid < stride) scratch[tid] += scratch[tid + stride];
        __syncthreads();
    }
    float q_inv = rsqrtf(scratch[0] / (float)head_dim + eps);

    int rdim_pre = min(rotary_dim, head_dim);
    int hdim_pre = (rdim_pre > 0) ? rdim_pre / 2 : 1;
    for (int d = tid; d < head_dim; d += bdim) {
        float qv = q_head[d];
        if (use_qk_norm) qv *= q_inv * (q_norm[d] + qk_norm_offset);
        if (d < rdim_pre) {
            int pair = d % hdim_pre;
            bool imag = d >= hdim_pre;
            float re = q_head[pair];
            float im = q_head[pair + hdim_pre];
            if (use_qk_norm) {
                re *= q_inv * (q_norm[pair]            + qk_norm_offset);
                im *= q_inv * (q_norm[pair + hdim_pre] + qk_norm_offset);
            }
            float freq  = 1.0f / __powf(rope_base, (float)(2 * pair) / (float)rdim_pre);
            float angle = (float)pos * freq;
            float c = __cosf(angle);
            float s = __sinf(angle);
            qv = imag ? (re * s + im * c) : (re * c - im * s);
        }
        q_rot[d] = qv;
    }
    __syncthreads();

    int n_ctx = pos + 1;

    for (int j = tid; j < n_ctx; j += bdim) {
        float dot = 0.f;
        for (int d = 0; d < head_dim; d++) {
            float qv = q_rot[d];
            float kv = ld_kvc_pf(k_cache + ((size_t)j * num_kv_heads + kvh) * head_dim + d);
            dot += qv * kv;
        }
        float logit = dot * attn_scale;
        if (softcap > 0.f) logit = softcap * tanhf(logit / softcap);
        scores[j] = logit;
    }
    for (int j = tid + n_ctx; j < max_seq; j += bdim) {
        scores[j] = NEG_INF;
    }
    __syncthreads();

    float my_max = NEG_INF;
    for (int j = tid; j < n_ctx; j += bdim) {
        float s = scores[j];
        if (s > my_max) my_max = s;
    }
    scratch[tid] = my_max;
    __syncthreads();
    for (int stride = bdim / 2; stride > 0; stride >>= 1) {
        if (tid < stride) scratch[tid] = fmaxf(scratch[tid], scratch[tid + stride]);
        __syncthreads();
    }
    float row_max = scratch[0];

    float my_sum = 0.f;
    for (int j = tid; j < n_ctx; j += bdim) {
        float e = __expf(scores[j] - row_max);
        scores[j] = e;
        my_sum += e;
    }
    scratch[tid] = my_sum;
    __syncthreads();
    for (int stride = bdim / 2; stride > 0; stride >>= 1) {
        if (tid < stride) scratch[tid] += scratch[tid + stride];
        __syncthreads();
    }
    float inv_sum = 1.f / scratch[0];

    for (int d = tid; d < head_dim; d += bdim) {
        float acc = 0.f;
        for (int j = 0; j < n_ctx; j++) {
            float prob = scores[j] * inv_sum;
            float vv   = ld_kvc_pf(v_cache + ((size_t)j * num_kv_heads + kvh) * head_dim + d);
            acc += prob * vv;
        }
        out_seq[(size_t)(sp * num_q_heads + qh) * head_dim + d] = acc;
    }
}
