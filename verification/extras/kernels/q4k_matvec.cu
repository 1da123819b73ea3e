// Q4_K weight times one row.

__device__ float larql_f16_to_f32(unsigned short h) {
    float f;
    asm("cvt.f32.f16 %0, %1;" : "=f"(f) : "h"(h));
    return f;
}

__device__ unsigned char q4k_scale(const unsigned char* packed, int j) {
    if (j < 4) return packed[j] & 0x3fu;
    return (packed[j + 4] & 0x0fu) | ((packed[j - 4] >> 6) << 4);
}

__device__ unsigned char q4k_min(const unsigned char* packed, int j) {
    if (j < 4) return packed[j + 4] & 0x3fu;
    return (packed[j + 4] >> 4) | ((packed[j] >> 6) << 4);
}

extern "C" __global__ void q4k_matvec_direct(
    const unsigned char* q4k,
    const float* x,
    float* y,
    int rows,
    int hidden,
    int blocks_per_row
) {
    int row = blockIdx.x * blockDim.y + threadIdx.y;
    if (row >= rows) return;
    int tid = threadIdx.x;
    int bdim = blockDim.x;
    int row_lane = threadIdx.y;
    extern __shared__ float smem[];
    float* row_smem = smem + row_lane * bdim;

    float acc = 0.0f;
    const unsigned char* row_base = q4k + (unsigned long long)row * blocks_per_row * 144ull;

    for (int sb = 0; sb < blocks_per_row; ++sb) {
        const unsigned char* block = row_base + sb * 144;
        float d = larql_f16_to_f32((unsigned short)block[0] | ((unsigned short)block[1] << 8));
        float dmin = larql_f16_to_f32((unsigned short)block[2] | ((unsigned short)block[3] << 8));
        const unsigned char* packed = block + 4;
        const unsigned char* quants = block + 16;
        int x_base = sb * 256;

        for (int elem = tid; elem < 256; elem += bdim) {
            int sub = elem >> 5;
            int lane = elem & 31;
            int pair = sub >> 1;
            unsigned char byte = quants[pair * 32 + lane];
            unsigned char nibble = (sub & 1) ? (byte >> 4) : (byte & 0x0f);
            float sc = d * (float)q4k_scale(packed, sub);
            float mn = dmin * (float)q4k_min(packed, sub);
            float w = sc * (float)nibble - mn;
            acc += w * x[x_base + elem];
        }
    }

    row_smem[tid] = acc;
    __syncthreads();
    for (int stride = bdim >> 1; stride > 0; stride >>= 1) {
        if (tid < stride) row_smem[tid] += row_smem[tid + stride];
        __syncthreads();
    }
    if (tid == 0) y[row] = row_smem[0];
}
