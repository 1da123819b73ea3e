// Appends a run of key and value rows to the slabs, with norm and rotary embedding.

__device__ void st_kv_seq(unsigned short* p, float v) {
    unsigned short h;
    asm("cvt.rn.f16.f32 %0, %1;" : "=h"(h) : "f"(v));
    p[0] = h;
}

extern "C" __global__ void kv_cache_write_seq_f32(
    const float* k_seq,
    const float* v_seq,
    unsigned short* k_cache,
    unsigned short* v_cache,
    const float* k_norm,
    int num_kv_heads,
    int head_dim,
    const int* base_pos_dev,
    int seq_len,
    int max_seq,
    int rotary_dim,
    float rope_base,
    float eps,
    float qk_norm_offset,
    int use_qk_norm
) {
    int sp  = blockIdx.x;
    int kvh = blockIdx.y;
    if (sp >= seq_len || kvh >= num_kv_heads) return;
    int pos = (*base_pos_dev) + sp;
    if (pos >= max_seq) return;

    int tid  = threadIdx.x;
    int bdim = blockDim.x;
    extern __shared__ float scratch[];

    const float* k_head = k_seq + ((size_t)sp * num_kv_heads + kvh) * head_dim;
    const float* v_head = v_seq + ((size_t)sp * num_kv_heads + kvh) * head_dim;

    float k_ss = 0.f;
    for (int d = tid; d < head_dim; d += bdim) {
        float kv = k_head[d];
        k_ss += kv * kv;
    }
    scratch[tid] = k_ss;
    __syncthreads();
    for (int stride = bdim / 2; stride > 0; stride >>= 1) {
        if (tid < stride) scratch[tid] += scratch[tid + stride];
        __syncthreads();
    }
    float k_inv = rsqrtf(scratch[0] / (float)head_dim + eps);

    int rdim = min(rotary_dim, head_dim);
    int hdim = (rdim > 0) ? rdim / 2 : 1;
    for (int d = tid; d < head_dim; d += bdim) {
        float k_rot;
        if (d < rdim) {
            int pair = d % hdim;
            bool imag = d >= hdim;
            float re = k_head[pair];
            float im = k_head[pair + hdim];
            if (use_qk_norm) {
                re *= k_inv * (k_norm[pair]        + qk_norm_offset);
                im *= k_inv * (k_norm[pair + hdim] + qk_norm_offset);
            }
            float freq  = 1.0f / __powf(rope_base, (float)(2 * pair) / (float)rdim);
            float angle = (float)pos * freq;
            float c = __cosf(angle);
            float s = __sinf(angle);
            k_rot = imag ? (re * s + im * c) : (re * c - im * s);
        } else {
            float kv = k_head[d];
            if (use_qk_norm) kv *= k_inv * (k_norm[d] + qk_norm_offset);
            k_rot = kv;
        }
        size_t idx = ((size_t)pos * num_kv_heads + kvh) * head_dim + d;
        st_kv_seq(k_cache + idx, k_rot);
        st_kv_seq(v_cache + idx, v_head[d]);
    }
}
