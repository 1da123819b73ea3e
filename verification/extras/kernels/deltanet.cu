// Single DeltaNet steps: causal convolution, decay-first recurrence, and the two norms. Sums run in
// element order in one thread, so that they round as they do on the host.

extern "C" __global__ void causal_conv1d_step_f32(
    const float* __restrict__ weight,
    float* __restrict__ state,
    const float* __restrict__ new_x,
    float* __restrict__ out,
    int d_conv,
    int conv_dim
) {
    int c = blockIdx.x * blockDim.x + threadIdx.x;
    if (c >= conv_dim) return;

    int state_rows = d_conv - 1;
    float acc = 0.0f;
    for (int k = 0; k < state_rows; ++k) {
        acc += weight[(size_t)k * conv_dim + c] * state[(size_t)k * conv_dim + c];
    }
    acc += weight[(size_t)(d_conv - 1) * conv_dim + c] * new_x[c];
    out[c] = acc;

    for (int k = 0; k + 1 < state_rows; ++k) {
        state[(size_t)k * conv_dim + c] = state[(size_t)(k + 1) * conv_dim + c];
    }
    if (state_rows > 0) {
        state[(size_t)(state_rows - 1) * conv_dim + c] = new_x[c];
    }
}

extern "C" __global__ void deltanet_step_decay_first_f32(
    const float* __restrict__ q,
    const float* __restrict__ k,
    const float* __restrict__ v,
    const float* __restrict__ log_g,
    const float* __restrict__ beta,
    float* __restrict__ state,
    float* __restrict__ out,
    int s,
    int h_k,
    int h_v,
    int block_gqa
) {
    int h = blockIdx.x;
    if (h >= h_v) return;
    int tid = threadIdx.x;
    int bdim = blockDim.x;

    int kh = block_gqa ? (h * h_k / h_v) : (h % h_k);
    float g = expf(log_g[h]);
    float b = beta[h];
    float scale_q = rsqrtf((float)s);

    extern __shared__ float smem[];
    float* sk = smem;
    float* d = smem + s;

    int ss = s * s;
    for (int idx = tid; idx < ss; idx += bdim) {
        int r = idx / s;
        int c = idx - r * s;
        size_t off = ((size_t)r * s + c) * h_v + h;
        state[off] *= g;
    }
    __syncthreads();

    for (int c = tid; c < s; c += bdim) {
        float acc = 0.0f;
        for (int r = 0; r < s; ++r) {
            float k_val = k[(size_t)r * h_k + kh];
            size_t off = ((size_t)r * s + c) * h_v + h;
            acc += state[off] * k_val;
        }
        sk[c] = acc;
    }
    __syncthreads();

    for (int c = tid; c < s; c += bdim) {
        d[c] = (v[(size_t)c * h_v + h] - sk[c]) * b;
    }
    __syncthreads();

    for (int idx = tid; idx < ss; idx += bdim) {
        int r = idx / s;
        int c = idx - r * s;
        float k_val = k[(size_t)r * h_k + kh];
        size_t off = ((size_t)r * s + c) * h_v + h;
        state[off] += k_val * d[c];
    }
    __syncthreads();

    for (int c = tid; c < s; c += bdim) {
        float acc = 0.0f;
        for (int r = 0; r < s; ++r) {
            size_t off = ((size_t)r * s + c) * h_v + h;
            acc += state[off] * q[(size_t)r * h_k + kh];
        }
        out[(size_t)c * h_v + h] = acc * scale_q;
    }
}

extern "C" __global__ void l2_norm_dim_major_f32(
    const float* __restrict__ x,
    float* __restrict__ out,
    int head_dim,
    int n_heads,
    float eps
) {
    int h = blockIdx.x;
    if (h >= n_heads) return;
    int tid = threadIdx.x;
    int bdim = blockDim.x;
    extern __shared__ float smem[];

    if (tid == 0) {
        float ss = 0.0f;
        for (int d = 0; d < head_dim; ++d) {
            float v = x[(size_t)d * n_heads + h];
            ss += v * v;
        }
        smem[0] = ss;
    }
    __syncthreads();
    float inv = rsqrtf(smem[0] + eps);
    for (int d = tid; d < head_dim; d += bdim) {
        size_t off = (size_t)d * n_heads + h;
        out[off] = x[off] * inv;
    }
}

extern "C" __global__ void rms_norm_heads_head_major_f32(
    const float* __restrict__ x,
    const float* __restrict__ weight,
    float* __restrict__ out,
    int num_heads,
    int head_dim,
    float eps
) {
    int h = blockIdx.x;
    if (h >= num_heads) return;
    int tid = threadIdx.x;
    int bdim = blockDim.x;
    extern __shared__ float smem[];
    size_t off = (size_t)h * head_dim;

    if (tid == 0) {
        float ss = 0.0f;
        for (int d = 0; d < head_dim; ++d) {
            float v = x[off + d];
            ss += v * v;
        }
        smem[0] = ss;
    }
    __syncthreads();
    float inv_rms = rsqrtf(smem[0] / (float)head_dim + eps);
    for (int d = tid; d < head_dim; d += bdim) {
        out[off + d] = x[off + d] * inv_rms * weight[d];
    }
}
