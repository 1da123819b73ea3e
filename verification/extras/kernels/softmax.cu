// Softmax of each row, with a scale, an optional soft cap and an optional causal mask.

#define POS_INF (__int_as_float(0x7f800000))
#define NEG_INF (__int_as_float(0xff800000))

extern "C" __global__ void scaled_softmax(
    float *x,
    int n_rows,
    int n_cols,
    float scale,
    float softcap,
    int causal
) {
    int row = blockIdx.x;
    if (row >= n_rows) return;
    float *r = x + (size_t)row * n_cols;
    int tid = threadIdx.x;
    int bdim = blockDim.x;

    extern __shared__ float smem[];

    float my_max = NEG_INF;
    for (int j = tid; j < n_cols; j += bdim) {
        float v = r[j] * scale;
        if (softcap > 0.f) {
            v = softcap * tanhf(v / softcap);
        }
        if (causal && j > row) {
            v = NEG_INF;
        }
        r[j] = v;
        if (v > my_max) my_max = v;
    }
    smem[tid] = my_max;
    __syncthreads();
    for (int s = bdim / 2; s > 0; s >>= 1) {
        if (tid < s) {
            float a = smem[tid], b = smem[tid + s];
            smem[tid] = (a > b) ? a : b;
        }
        __syncthreads();
    }
    float row_max = smem[0];

    float my_sum = 0.f;
    for (int j = tid; j < n_cols; j += bdim) {
        float e = __expf(r[j] - row_max);
        r[j] = e;
        my_sum += e;
    }
    smem[tid] = my_sum;
    __syncthreads();
    for (int s = bdim / 2; s > 0; s >>= 1) {
        if (tid < s) smem[tid] += smem[tid + s];
        __syncthreads();
    }
    float row_sum = smem[0];

    float inv = 1.f / row_sum;
    for (int j = tid; j < n_cols; j += bdim) {
        r[j] *= inv;
    }
}
