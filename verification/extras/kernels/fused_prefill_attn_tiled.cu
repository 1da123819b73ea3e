// The same for long contexts, in tiles.

#define NEG_INF (__int_as_float(0xff800000))

__device__ float ld_kvc_pf(const unsigned short* p) {
    float f;
    asm("cvt.f32.f16 %0, %1;" : "=f"(f) : "h"(p[0]));
    return f;
}

#define TILE_K 1024

extern "C" __global__ void fused_prefill_attention_tiled_f32(
    const float* q_seq,
    const unsigned short* k_cache,
    const unsigned short* v_cache,
    const float* q_norm,
    float* out_seq,
    int num_q_heads,
    int num_kv_heads,
    int head_dim,
    const int* base_pos_dev,
    int seq_len,
    int max_seq,
    int rotary_dim,
    float rope_base,
    float eps,
    float qk_norm_offset,
    float attn_scale,
    float softcap,
    int use_qk_norm
) {
    int qh = blockIdx.x;
    int sp = blockIdx.y;
    if (qh >= num_q_heads || sp >= seq_len) return;
    int pos = (*base_pos_dev) + sp;
    if (pos >= max_seq) return;

    int tid = threadIdx.x;
    int bdim = blockDim.x;
    extern __shared__ float smem[];
    float* tile_scores = smem;
    float* scratch     = smem + TILE_K;
    float* q_rot       = smem + TILE_K + bdim;

    int group = max(1, num_q_heads / max(1, num_kv_heads));
    int kvh = min(num_kv_heads - 1, qh / group);
    const float* q_head = q_seq + (size_t)(sp * num_q_heads + qh) * head_dim;

    float q_ss = 0.f;
    for (int d = tid; d < head_dim; d += bdim) {
        float qv = q_head[d];
        q_ss += qv * qv;
    }
    scratch[tid] = q_ss;
    __syncthreads();
    for (int stride = bdim / 2; stride > 0; stride >>= 1) {
        if (tid < stride) scratch[tid] += scratch[tid + stride];
        __syncthreads();
    }
    float q_inv = rsqrtf(scratch[0] / (float)head_dim + eps);

    int rdim_pre = min(rotary_dim, head_dim);
    int hdim_pre = (rdim_pre > 0) ? rdim_pre / 2 : 1;
    for (int d = tid; d < head_dim; d += bdim) {
        float qv = q_head[d];
        if (use_qk_norm) qv *= q_inv * (q_norm[d] + qk_norm_offset);
        if (d < rdim_pre) {
            int pair = d % hdim_pre;
            bool imag = d >= hdim_pre;
            float re = q_head[pair];
            float im = q_head[pair + hdim_pre];
            if (use_qk_norm) {
                re *= q_inv * (q_norm[pair]            + qk_norm_offset);
                im *= q_inv * (q_norm[pair + hdim_pre] + qk_norm_offset);
            }
            float freq  = 1.0f / __powf(rope_base, (float)(2 * pair) / (float)rdim_pre);
            float angle = (float)pos * freq;
            float c = __cosf(angle);
            float s = __sinf(angle);
            qv = imag ? (re * s + im * c) : (re * c - im * s);
        }
        q_rot[d] = qv;
    }
    __syncthreads();

    int n_ctx = pos + 1;
    int num_tiles = (n_ctx + TILE_K - 1) / TILE_K;

    int my_d = (tid < head_dim) ? tid : -1;

    float m_state = NEG_INF;
    float l_state = 0.f;
    float my_acc = 0.f;

    for (int t = 0; t < num_tiles; t++) {
        int t_start = t * TILE_K;
        int t_end   = min(t_start + TILE_K, n_ctx);
        int tile_size = t_end - t_start;

        for (int j_local = tid; j_local < tile_size; j_local += bdim) {
            int j = t_start + j_local;
            float dot = 0.f;
            for (int di = 0; di < head_dim; di++) {
                float qv = q_rot[di];
                float kv = ld_kvc_pf(k_cache + ((size_t)j * num_kv_heads + kvh) * head_dim + di);
                dot += qv * kv;
            }
            float logit = dot * attn_scale;
            if (softcap > 0.f) logit = softcap * tanhf(logit / softcap);
            tile_scores[j_local] = logit;
        }
        __syncthreads();

        float my_tile_max = NEG_INF;
        for (int j_local = tid; j_local < tile_size; j_local += bdim) {
            my_tile_max = fmaxf(my_tile_max, tile_scores[j_local]);
        }
        scratch[tid] = my_tile_max;
        __syncthreads();
        for (int stride = bdim / 2; stride > 0; stride >>= 1) {
            if (tid < stride) scratch[tid] = fmaxf(scratch[tid], scratch[tid + stride]);
            __syncthreads();
        }
        float tile_max = scratch[0];

        float new_m = fmaxf(m_state, tile_max);
        float rescale = (m_state == NEG_INF) ? 0.f : __expf(m_state - new_m);

        for (int j_local = tid; j_local < tile_size; j_local += bdim) {
            tile_scores[j_local] = __expf(tile_scores[j_local] - new_m);
        }
        __syncthreads();

        float my_tile_l = 0.f;
        for (int j_local = tid; j_local < tile_size; j_local += bdim) {
            my_tile_l += tile_scores[j_local];
        }
        scratch[tid] = my_tile_l;
        __syncthreads();
        for (int stride = bdim / 2; stride > 0; stride >>= 1) {
            if (tid < stride) scratch[tid] += scratch[tid + stride];
            __syncthreads();
        }
        float tile_l_total = scratch[0];

        l_state = l_state * rescale + tile_l_total;

        if (my_d >= 0) {
            my_acc *= rescale;
            for (int j_local = 0; j_local < tile_size; j_local++) {
                int j = t_start + j_local;
                float vv = ld_kvc_pf(v_cache + ((size_t)j * num_kv_heads + kvh) * head_dim + my_d);
                my_acc += tile_scores[j_local] * vv;
            }
        }

        m_state = new_m;

        __syncthreads();
    }

    if (my_d >= 0) {
        out_seq[(size_t)(sp * num_q_heads + qh) * head_dim + my_d] = my_acc / l_state;
    }
}
