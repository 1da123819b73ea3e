// Activations and changes of layout of a DeltaNet block.

extern "C" __global__ void silu_inplace_f32(float* x, int n) {
    int i = blockIdx.x * blockDim.x + threadIdx.x;
    if (i >= n) return;
    float v = x[i];
    float sig = 1.0f / (1.0f + expf(-v));
    x[i] = v * sig;
}

extern "C" __global__ void reshape_head_to_dim_f32(
    const float* __restrict__ src,
    float* __restrict__ dst,
    int head_dim,
    int n_heads,
    int src_offset
) {
    int h = blockIdx.y;
    int d = blockIdx.x * blockDim.x + threadIdx.x;
    if (d >= head_dim || h >= n_heads) return;
    dst[(size_t)d * n_heads + h] = src[(size_t)src_offset + (size_t)h * head_dim + d];
}

extern "C" __global__ void reshape_dim_to_head_f32(
    const float* __restrict__ src,
    float* __restrict__ dst,
    int head_dim,
    int n_heads,
    int src_offset
) {
    int h = blockIdx.y;
    int d = blockIdx.x * blockDim.x + threadIdx.x;
    if (d >= head_dim || h >= n_heads) return;
    dst[(size_t)h * head_dim + d] = src[(size_t)src_offset + (size_t)d * n_heads + h];
}

extern "C" __global__ void silu_mul_inplace_f32(
    float* __restrict__ o,
    const float* __restrict__ z,
    int n
) {
    int i = blockIdx.x * blockDim.x + threadIdx.x;
    if (i >= n) return;
    float zv = z[i];
    float sig = 1.0f / (1.0f + expf(-zv));
    float silu = zv * sig;
    o[i] = o[i] * silu;
}
