// Q4_K weight times one packed row. The dot product is that of ggml (MIT licence, the ggml
// authors).

__device__ float larql_f16_to_f32(unsigned short h) {
    float f;
    asm("cvt.f32.f16 %0, %1;" : "=f"(f) : "h"(h));
    return f;
}

__device__ int dp4a_s32(int a, int b, int c) {
    int r;
    asm("dp4a.s32.s32 %0, %1, %2, %3;" : "=r"(r) : "r"(a), "r"(b), "r"(c));
    return r;
}

__device__ unsigned char q4k_scale(const unsigned char* packed, int j) {
    if (j < 4) return packed[j] & 0x3fu;
    return (packed[j + 4] & 0x0fu) | ((packed[j - 4] >> 6) << 4);
}
__device__ unsigned char q4k_min(const unsigned char* packed, int j) {
    if (j < 4) return packed[j + 4] & 0x3fu;
    return (packed[j + 4] >> 4) | ((packed[j] >> 6) << 4);
}

__device__ float vec_dot_q4_K_q8_1_impl_vmmq(
    const unsigned char* bq4_K,
    const unsigned char* y_q8_1_base,
    int kby,
    int iqs
) {

    float d_f    = larql_f16_to_f32((unsigned short)bq4_K[0] | ((unsigned short)bq4_K[1] << 8));
    float dmin_f = larql_f16_to_f32((unsigned short)bq4_K[2] | ((unsigned short)bq4_K[3] << 8));

    const unsigned char* packed = bq4_K + 4;
    const unsigned char* qs     = bq4_K + 16;

    int bq8_offset = 2 * ((iqs / 2) / 4);

    const unsigned int* q4 =
        (const unsigned int*)(qs + 16 * bq8_offset + 4 * ((iqs / 2) % 4));
    int v0 = q4[0];
    int v1 = q4[4];

    unsigned char sc0 = q4k_scale(packed, bq8_offset + 0);
    unsigned char sc1 = q4k_scale(packed, bq8_offset + 1);
    unsigned char m0  = q4k_min  (packed, bq8_offset + 0);
    unsigned char m1  = q4k_min  (packed, bq8_offset + 1);

    int u00, u01, u10, u11;
    float d8_0, d8_1;
    {
        const unsigned char* bq8 = y_q8_1_base + (size_t)(kby + bq8_offset + 0) * 36;
        d8_0 = larql_f16_to_f32(
            (unsigned short)bq8[0] | ((unsigned short)bq8[1] << 8)
        );
        const unsigned int* q8 = (const unsigned int*)(bq8 + 4);
        int chunk = (iqs / 2) % 4;
        u00 = q8[chunk];
        u01 = q8[chunk + 4];
    }
    {
        const unsigned char* bq8 = y_q8_1_base + (size_t)(kby + bq8_offset + 1) * 36;
        d8_1 = larql_f16_to_f32(
            (unsigned short)bq8[0] | ((unsigned short)bq8[1] << 8)
        );
        const unsigned int* q8 = (const unsigned int*)(bq8 + 4);
        int chunk = (iqs / 2) % 4;
        u10 = q8[chunk];
        u11 = q8[chunk + 4];
    }

    float sumf_d = 0.0f;
    float sumf_m = 0.0f;

    {
        int v0i  = (v0 >> 0) & 0x0F0F0F0F;
        int v1i  = (v1 >> 0) & 0x0F0F0F0F;
        int dot1 = dp4a_s32(v1i, u01, dp4a_s32(v0i, u00, 0));
        int dot2 = dp4a_s32(0x01010101, u01, dp4a_s32(0x01010101, u00, 0));
        sumf_d += d8_0 * (dot1 * (float)sc0);
        sumf_m += d8_0 * (dot2 * (float)m0);
    }

    {
        int v0i  = (v0 >> 4) & 0x0F0F0F0F;
        int v1i  = (v1 >> 4) & 0x0F0F0F0F;
        int dot1 = dp4a_s32(v1i, u11, dp4a_s32(v0i, u10, 0));
        int dot2 = dp4a_s32(0x01010101, u11, dp4a_s32(0x01010101, u10, 0));
        sumf_d += d8_1 * (dot1 * (float)sc1);
        sumf_m += d8_1 * (dot2 * (float)m1);
    }

    return d_f * sumf_d - dmin_f * sumf_m;
}

extern "C" __global__ void mul_mat_vec_q4_K_q8_1_f32(
    const unsigned char* __restrict__ vbq,
    const unsigned char* __restrict__ vy,
    float*               __restrict__ dst,
    int rows,
    int n_super_blocks
) {
    int tid_x = threadIdx.x;
    int tid_y = threadIdx.y;
    int row   = blockIdx.x * blockDim.y + tid_y;
    if (row >= rows) return;

    int kbx_lane = tid_x / 16;
    int iqs      = 2 * (tid_x % 16);

    const unsigned char* row_base =
        vbq + (size_t)row * (size_t)n_super_blocks * 144ull;

    float partial = 0.0f;

    for (int kbx_base = 0; kbx_base + kbx_lane < n_super_blocks; kbx_base += 2) {
        int kbx = kbx_base + kbx_lane;
        if (kbx >= n_super_blocks) break;

        int kby = kbx * 8;

        partial += vec_dot_q4_K_q8_1_impl_vmmq(
            row_base + (size_t)kbx * 144,
            vy,
            kby,
            iqs
        );
    }

    #pragma unroll
    for (int o = 16; o > 0; o >>= 1) {
        partial += __shfl_xor_sync(0xffffffff, partial, o);
    }

    if (tid_x == 0) {
        dst[row] = partial;
    }
}

extern "C" __global__ void mul_mat_vec_q4_K_q8_1_f32_coop(
    const unsigned char* __restrict__ vbq,
    const unsigned char* __restrict__ vy,
    float*               __restrict__ dst,
    int rows,
    int n_super_blocks
) {
    int row = blockIdx.x;
    if (row >= rows) return;

    int tid_x = threadIdx.x;
    int tid_y = threadIdx.y;
    int tid   = blockDim.x * tid_y + tid_x;

    int kbx_lane = tid / 16;
    int iqs      = 2 * (tid % 16);

    const unsigned char* row_base =
        vbq + (size_t)row * (size_t)n_super_blocks * 144ull;

    float partial = 0.0f;

    for (int kbx_base = 0; kbx_base + kbx_lane < n_super_blocks; kbx_base += 8) {
        int kbx = kbx_base + kbx_lane;
        if (kbx >= n_super_blocks) break;
        int kby = kbx * 8;
        partial += vec_dot_q4_K_q8_1_impl_vmmq(
            row_base + (size_t)kbx * 144, vy, kby, iqs
        );
    }

    #pragma unroll
    for (int o = 16; o > 0; o >>= 1) {
        partial += __shfl_xor_sync(0xffffffff, partial, o);
    }

    extern __shared__ float warp_sums[];
    if (tid_x == 0) warp_sums[tid_y] = partial;
    __syncthreads();
    if (tid_y == 0 && tid_x == 0) {
        float total = 0.0f;
        for (int w = 0; w < blockDim.y; ++w) total += warp_sums[w];
        dst[row] = total;
    }
}
