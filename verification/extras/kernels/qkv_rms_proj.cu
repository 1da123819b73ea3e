// RMS norm of a row and its query, key and value projections, one output element for each
// block.

extern "C" __global__ void qkv_rms_proj_f32(
    const float* x,
    const float* norm_w,
    const float* wq,
    const float* wk,
    const float* wv,
    float* q,
    float* k,
    float* v,
    int hidden,
    int q_dim,
    int kv_dim,
    float eps,
    float norm_offset
) {
    int row = blockIdx.x;
    int total_rows = q_dim + kv_dim + kv_dim;
    if (row >= total_rows) return;

    int tid = threadIdx.x;
    int bdim = blockDim.x;
    extern __shared__ float smem[];

    float ss = 0.f;
    for (int d = tid; d < hidden; d += bdim) {
        float xv = x[d];
        ss += xv * xv;
    }
    smem[tid] = ss;
    __syncthreads();
    for (int stride = bdim / 2; stride > 0; stride >>= 1) {
        if (tid < stride) smem[tid] += smem[tid + stride];
        __syncthreads();
    }
    float inv_rms = rsqrtf(smem[0] / (float)hidden + eps);

    const float* w;
    float* out;
    int local_row;
    if (row < q_dim) {
        w = wq;
        out = q;
        local_row = row;
    } else if (row < q_dim + kv_dim) {
        w = wk;
        out = k;
        local_row = row - q_dim;
    } else {
        w = wv;
        out = v;
        local_row = row - q_dim - kv_dim;
    }

    float acc = 0.f;
    const float* w_row = w + (size_t)local_row * hidden;
    for (int d = tid; d < hidden; d += bdim) {
        float xn = x[d] * inv_rms * (norm_w[d] + norm_offset);
        acc += xn * w_row[d];
    }
    smem[tid] = acc;
    __syncthreads();
    for (int stride = bdim / 2; stride > 0; stride >>= 1) {
        if (tid < stride) smem[tid] += smem[tid + stride];
        __syncthreads();
    }
    if (tid == 0) out[local_row] = smem[0];
}
