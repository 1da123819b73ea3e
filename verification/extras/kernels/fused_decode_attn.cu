// Attention of one new position: optional norms of query and key, rotary embedding, append to the
// half-precision slabs, scores, softmax, weighted sum. A rotary width of zero leaves queries and
// keys as they are. The position is read from the device. Each head's output is split over
// `d_split` blocks, of which the first appends to the slabs.

#define NEG_INF (__int_as_float(0xff800000))

__device__ float ld_kvcache(const unsigned short* p) {
    float f;
    asm("cvt.f32.f16 %0, %1;" : "=f"(f) : "h"(p[0]));
    return f;
}
__device__ void st_kvcache(unsigned short* p, float v) {
    unsigned short h;
    asm("cvt.rn.f16.f32 %0, %1;" : "=h"(h) : "f"(v));
    p[0] = h;
}

extern "C" __global__ void fused_decode_attention_f32(
    const float* q,
    const float* k_new,
    const float* v_new,
    unsigned short* k_cache,
    unsigned short* v_cache,
    const float* q_norm,
    const float* k_norm,
    float* out,
    int num_q_heads,
    int num_kv_heads,
    int head_dim,
    const int* pos_dev,
    int max_seq,
    int rotary_dim,
    float rope_base,
    float eps,
    float qk_norm_offset,
    float attn_scale,
    float softcap,
    int use_qk_norm,
    int d_split
) {

    int pos = *pos_dev;
    int qh = blockIdx.x;

    int dchunk = blockIdx.y;
    if (qh >= num_q_heads || dchunk >= d_split || pos >= max_seq) return;
    int d_per_chunk = head_dim / d_split;
    int d_start = dchunk * d_per_chunk;
    int d_end   = d_start + d_per_chunk;
    int tid = threadIdx.x;
    int bdim = blockDim.x;
    extern __shared__ float smem[];
    float* scores = smem;
    float* scratch = smem + max_seq;

    float* q_rot = smem + max_seq + bdim;

    int group = max(1, num_q_heads / max(1, num_kv_heads));
    int kvh = min(num_kv_heads - 1, qh / group);
    const float* q_head = q + (size_t)qh * head_dim;
    const float* k_head = k_new + (size_t)kvh * head_dim;
    const float* v_head = v_new + (size_t)kvh * head_dim;

    float q_ss = 0.f;
    float k_ss = 0.f;
    for (int d = tid; d < head_dim; d += bdim) {
        float qv = q_head[d];
        float kv = k_head[d];
        q_ss += qv * qv;
        k_ss += kv * kv;
    }
    scratch[tid] = q_ss;
    __syncthreads();
    for (int stride = bdim / 2; stride > 0; stride >>= 1) {
        if (tid < stride) scratch[tid] += scratch[tid + stride];
        __syncthreads();
    }
    float q_inv = rsqrtf(scratch[0] / (float)head_dim + eps);

    scratch[tid] = k_ss;
    __syncthreads();
    for (int stride = bdim / 2; stride > 0; stride >>= 1) {
        if (tid < stride) scratch[tid] += scratch[tid + stride];
        __syncthreads();
    }
    float k_inv = rsqrtf(scratch[0] / (float)head_dim + eps);

    int rdim_pre = min(rotary_dim, head_dim);
    int hdim_pre = (rdim_pre > 0) ? rdim_pre / 2 : 1;
    for (int d = tid; d < head_dim; d += bdim) {
        float qv = q_head[d];
        if (use_qk_norm) qv *= q_inv * (q_norm[d] + qk_norm_offset);
        if (d < rdim_pre) {
            int pair = d % hdim_pre;
            bool imag = d >= hdim_pre;
            float re = q_head[pair];
            float im = q_head[pair + hdim_pre];
            if (use_qk_norm) {
                re *= q_inv * (q_norm[pair]            + qk_norm_offset);
                im *= q_inv * (q_norm[pair + hdim_pre] + qk_norm_offset);
            }
            float freq  = 1.0f / __powf(rope_base, (float)(2 * pair) / (float)rdim_pre);
            float angle = (float)pos * freq;
            float c = __cosf(angle);
            float s = __sinf(angle);
            qv = imag ? (re * s + im * c) : (re * c - im * s);
        }
        q_rot[d] = qv;
    }
    __syncthreads();

    if ((qh % group) == 0 && dchunk == 0) {
        for (int d = tid; d < head_dim; d += bdim) {
            float kv = k_head[d];
            if (use_qk_norm) kv *= k_inv * (k_norm[d] + qk_norm_offset);

            float k_rot;

            int rdim = min(rotary_dim, head_dim);
            int hdim = (rdim > 0) ? rdim / 2 : 1;
            if (d < rdim) {
                int pair = d % hdim;
                bool imag = d >= hdim;
                float re = k_head[pair];
                float im = k_head[pair + hdim];
                if (use_qk_norm) {
                    re *= k_inv * (k_norm[pair] + qk_norm_offset);
                    im *= k_inv * (k_norm[pair + hdim] + qk_norm_offset);
                }
                float freq = 1.0f / __powf(rope_base, (float)(2 * pair) / (float)rdim);
                float angle = (float)pos * freq;
                float c = __cosf(angle);
                float s = __sinf(angle);
                k_rot = imag ? (re * s + im * c) : (re * c - im * s);
            } else {
                k_rot = kv;
            }
            size_t idx = ((size_t)pos * num_kv_heads + kvh) * head_dim + d;
            st_kvcache(k_cache + idx, k_rot);
            st_kvcache(v_cache + idx, v_head[d]);
        }
    }
    __syncthreads();

    int n_ctx = pos + 1;
    for (int j = tid; j < n_ctx; j += bdim) {
        float dot = 0.f;
        for (int d = 0; d < head_dim; d++) {

            float qv = q_rot[d];

            float kv;
            if (j == pos) {

                int rdim = min(rotary_dim, head_dim);
                if (d < rdim) {
                    int hdim = rdim / 2;
                    int pair = d % hdim;
                    bool imag = d >= hdim;
                    float re = k_head[pair];
                    float im = k_head[pair + hdim];
                    if (use_qk_norm) {
                        re *= k_inv * (k_norm[pair] + qk_norm_offset);
                        im *= k_inv * (k_norm[pair + hdim] + qk_norm_offset);
                    }
                    float freq = 1.0f / __powf(rope_base, (float)(2 * pair) / (float)rdim);
                    float angle = (float)pos * freq;
                    float c = __cosf(angle);
                    float s = __sinf(angle);
                    kv = imag ? (re * s + im * c) : (re * c - im * s);
                } else {
                    kv = k_head[d];
                    if (use_qk_norm) kv *= k_inv * (k_norm[d] + qk_norm_offset);
                }
            } else {
                kv = ld_kvcache(k_cache + ((size_t)j * num_kv_heads + kvh) * head_dim + d);
            }
            dot += qv * kv;
        }
        float logit = dot * attn_scale;
        if (softcap > 0.f) logit = softcap * tanhf(logit / softcap);
        scores[j] = logit;
    }
    for (int j = tid + n_ctx; j < max_seq; j += bdim) {
        scores[j] = NEG_INF;
    }
    __syncthreads();

    float my_max = NEG_INF;
    for (int j = tid; j < n_ctx; j += bdim) {
        float s = scores[j];
        if (s > my_max) my_max = s;
    }
    scratch[tid] = my_max;
    __syncthreads();
    for (int stride = bdim / 2; stride > 0; stride >>= 1) {
        if (tid < stride) scratch[tid] = fmaxf(scratch[tid], scratch[tid + stride]);
        __syncthreads();
    }
    float row_max = scratch[0];

    float my_sum = 0.f;
    for (int j = tid; j < n_ctx; j += bdim) {
        float e = __expf(scores[j] - row_max);
        scores[j] = e;
        my_sum += e;
    }
    scratch[tid] = my_sum;
    __syncthreads();
    for (int stride = bdim / 2; stride > 0; stride >>= 1) {
        if (tid < stride) scratch[tid] += scratch[tid + stride];
        __syncthreads();
    }
    float inv_sum = 1.f / scratch[0];

    for (int d = tid + d_start; d < d_end; d += bdim) {
        float acc = 0.f;
        for (int j = 0; j < n_ctx; j++) {
            float prob = scores[j] * inv_sum;
            float vv = (j == pos)
                ? v_head[d]
                : ld_kvcache(v_cache + ((size_t)j * num_kv_heads + kvh) * head_dim + d);
            acc += prob * vv;
        }
        out[(size_t)qh * head_dim + d] = acc;
    }
}
