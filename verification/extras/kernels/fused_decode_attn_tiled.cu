// The same for long contexts: the slabs are gone through in tiles with a running maximum and a
// running sum, so that shared memory does not grow with the context.

#define NEG_INF (__int_as_float(0xff800000))

__device__ float ld_kvcache(const unsigned short* p) {
    float f;
    asm("cvt.f32.f16 %0, %1;" : "=f"(f) : "h"(p[0]));
    return f;
}
__device__ void st_kvcache(unsigned short* p, float v) {
    unsigned short h;
    asm("cvt.rn.f16.f32 %0, %1;" : "=h"(h) : "f"(v));
    p[0] = h;
}

#define TILE_K 1024

extern "C" __global__ void fused_decode_attention_tiled_f32(
    const float* q,
    const float* k_new,
    const float* v_new,
    unsigned short* k_cache,
    unsigned short* v_cache,
    const float* q_norm,
    const float* k_norm,
    float* out,
    int num_q_heads,
    int num_kv_heads,
    int head_dim,
    const int* pos_dev,
    int max_seq,
    int rotary_dim,
    float rope_base,
    float eps,
    float qk_norm_offset,
    float attn_scale,
    float softcap,
    int use_qk_norm,
    int d_split
) {
    int pos = *pos_dev;
    int qh = blockIdx.x;
    int dchunk = blockIdx.y;
    if (qh >= num_q_heads || dchunk >= d_split || pos >= max_seq) return;
    int d_per_chunk = head_dim / d_split;
    int d_start = dchunk * d_per_chunk;
    int d_end   = d_start + d_per_chunk;
    int tid = threadIdx.x;
    int bdim = blockDim.x;
    extern __shared__ float smem[];
    float* tile_scores = smem;
    float* scratch     = smem + TILE_K;
    float* q_rot       = smem + TILE_K + bdim;

    int group = max(1, num_q_heads / max(1, num_kv_heads));
    int kvh = min(num_kv_heads - 1, qh / group);
    const float* q_head = q + (size_t)qh * head_dim;
    const float* k_head = k_new + (size_t)kvh * head_dim;
    const float* v_head = v_new + (size_t)kvh * head_dim;

    float q_ss = 0.f;
    float k_ss = 0.f;
    for (int d = tid; d < head_dim; d += bdim) {
        float qv = q_head[d];
        float kv = k_head[d];
        q_ss += qv * qv;
        k_ss += kv * kv;
    }
    scratch[tid] = q_ss;
    __syncthreads();
    for (int stride = bdim / 2; stride > 0; stride >>= 1) {
        if (tid < stride) scratch[tid] += scratch[tid + stride];
        __syncthreads();
    }
    float q_inv = rsqrtf(scratch[0] / (float)head_dim + eps);

    scratch[tid] = k_ss;
    __syncthreads();
    for (int stride = bdim / 2; stride > 0; stride >>= 1) {
        if (tid < stride) scratch[tid] += scratch[tid + stride];
        __syncthreads();
    }
    float k_inv = rsqrtf(scratch[0] / (float)head_dim + eps);

    int rdim_pre = min(rotary_dim, head_dim);
    int hdim_pre = (rdim_pre > 0) ? rdim_pre / 2 : 1;
    for (int d = tid; d < head_dim; d += bdim) {
        float qv = q_head[d];
        if (use_qk_norm) qv *= q_inv * (q_norm[d] + qk_norm_offset);
        if (d < rdim_pre) {
            int pair = d % hdim_pre;
            bool imag = d >= hdim_pre;
            float re = q_head[pair];
            float im = q_head[pair + hdim_pre];
            if (use_qk_norm) {
                re *= q_inv * (q_norm[pair]            + qk_norm_offset);
                im *= q_inv * (q_norm[pair + hdim_pre] + qk_norm_offset);
            }
            float freq  = 1.0f / __powf(rope_base, (float)(2 * pair) / (float)rdim_pre);
            float angle = (float)pos * freq;
            float c = __cosf(angle);
            float s = __sinf(angle);
            qv = imag ? (re * s + im * c) : (re * c - im * s);
        }
        q_rot[d] = qv;
    }
    __syncthreads();

    if ((qh % group) == 0 && dchunk == 0) {
        for (int d = tid; d < head_dim; d += bdim) {
            float kv = k_head[d];
            if (use_qk_norm) kv *= k_inv * (k_norm[d] + qk_norm_offset);
            float k_rot;
            int rdim = min(rotary_dim, head_dim);
            int hdim = (rdim > 0) ? rdim / 2 : 1;
            if (d < rdim) {
                int pair = d % hdim;
                bool imag = d >= hdim;
                float re = k_head[pair];
                float im = k_head[pair + hdim];
                if (use_qk_norm) {
                    re *= k_inv * (k_norm[pair] + qk_norm_offset);
                    im *= k_inv * (k_norm[pair + hdim] + qk_norm_offset);
                }
                float freq = 1.0f / __powf(rope_base, (float)(2 * pair) / (float)rdim);
                float angle = (float)pos * freq;
                float c = __cosf(angle);
                float s = __sinf(angle);
                k_rot = imag ? (re * s + im * c) : (re * c - im * s);
            } else {
                k_rot = kv;
            }
            size_t idx = ((size_t)pos * num_kv_heads + kvh) * head_dim + d;
            st_kvcache(k_cache + idx, k_rot);
            st_kvcache(v_cache + idx, v_head[d]);
        }
    }
    __syncthreads();

    int n_ctx = pos + 1;
    int num_tiles = (n_ctx + TILE_K - 1) / TILE_K;

    int my_d_candidate = tid + d_start;
    int my_d = (my_d_candidate < d_end) ? my_d_candidate : -1;

    float m_state = NEG_INF;
    float l_state = 0.f;
    float my_acc = 0.f;

    for (int t = 0; t < num_tiles; t++) {
        int t_start = t * TILE_K;
        int t_end   = min(t_start + TILE_K, n_ctx);
        int tile_size = t_end - t_start;

        for (int j_local = tid; j_local < tile_size; j_local += bdim) {
            int j = t_start + j_local;
            float dot = 0.f;
            for (int di = 0; di < head_dim; di++) {
                float qv = q_rot[di];
                float kv;
                if (j == pos) {

                    int rdim = min(rotary_dim, head_dim);
                    if (di < rdim) {
                        int hdim = rdim / 2;
                        int pair = di % hdim;
                        bool imag = di >= hdim;
                        float re = k_head[pair];
                        float im = k_head[pair + hdim];
                        if (use_qk_norm) {
                            re *= k_inv * (k_norm[pair] + qk_norm_offset);
                            im *= k_inv * (k_norm[pair + hdim] + qk_norm_offset);
                        }
                        float freq = 1.0f / __powf(rope_base, (float)(2 * pair) / (float)rdim);
                        float angle = (float)pos * freq;
                        float c = __cosf(angle);
                        float s = __sinf(angle);
                        kv = imag ? (re * s + im * c) : (re * c - im * s);
                    } else {
                        kv = k_head[di];
                        if (use_qk_norm) kv *= k_inv * (k_norm[di] + qk_norm_offset);
                    }
                } else {
                    kv = ld_kvcache(k_cache + ((size_t)j * num_kv_heads + kvh) * head_dim + di);
                }
                dot += qv * kv;
            }
            float logit = dot * attn_scale;
            if (softcap > 0.f) logit = softcap * tanhf(logit / softcap);
            tile_scores[j_local] = logit;
        }
        __syncthreads();

        float my_tile_max = NEG_INF;
        for (int j_local = tid; j_local < tile_size; j_local += bdim) {
            my_tile_max = fmaxf(my_tile_max, tile_scores[j_local]);
        }
        scratch[tid] = my_tile_max;
        __syncthreads();
        for (int stride = bdim / 2; stride > 0; stride >>= 1) {
            if (tid < stride) scratch[tid] = fmaxf(scratch[tid], scratch[tid + stride]);
            __syncthreads();
        }
        float tile_max = scratch[0];

        float new_m = fmaxf(m_state, tile_max);
        float rescale = (m_state == NEG_INF) ? 0.f : __expf(m_state - new_m);

        for (int j_local = tid; j_local < tile_size; j_local += bdim) {
            tile_scores[j_local] = __expf(tile_scores[j_local] - new_m);
        }
        __syncthreads();

        float my_tile_l = 0.f;
        for (int j_local = tid; j_local < tile_size; j_local += bdim) {
            my_tile_l += tile_scores[j_local];
        }
        scratch[tid] = my_tile_l;
        __syncthreads();
        for (int stride = bdim / 2; stride > 0; stride >>= 1) {
            if (tid < stride) scratch[tid] += scratch[tid + stride];
            __syncthreads();
        }
        float tile_l_total = scratch[0];

        l_state = l_state * rescale + tile_l_total;

        if (my_d >= 0) {
            my_acc *= rescale;
            for (int j_local = 0; j_local < tile_size; j_local++) {
                int j = t_start + j_local;
                float vv = (j == pos)
                    ? v_head[my_d]
                    : ld_kvcache(v_cache + ((size_t)j * num_kv_heads + kvh) * head_dim + my_d);
                my_acc += tile_scores[j_local] * vv;
            }
        }

        m_state = new_m;

        __syncthreads();
    }

    if (my_d >= 0) {
        out[(size_t)qh * head_dim + my_d] = my_acc / l_state;
    }
}
