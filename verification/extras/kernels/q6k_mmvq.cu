// Q6_K weight, with neighbouring codes in one byte, times one packed row.

__device__ float larql_f16_to_f32(unsigned short h) {
    float f;
    asm("cvt.f32.f16 %0, %1;" : "=f"(f) : "h"(h));
    return f;
}

__device__ int dp4a_s32(int a, int b, int c) {
    int r;
    asm("dp4a.s32.s32 %0, %1, %2, %3;" : "=r"(r) : "r"(a), "r"(b), "r"(c));
    return r;
}

__device__ int get_int_b2(const unsigned char* p, int i32) {
    const unsigned short* p16 = (const unsigned short*)p;
    int v  = (int)p16[2 * i32 + 0];
    v     |= (int)p16[2 * i32 + 1] << 16;
    return v;
}

__device__ int vsub4_s32_sat(int a, int b) {
    int r;
    asm("vsub4.s32.s32.s32.sat %0, %1, %2, %3;"
        : "=r"(r) : "r"(a), "r"(b), "r"(0));
    return r;
}

__device__ int build_q6_quad_unsigned(int vl, unsigned char qh_byte) {
    int b0 = ( vl        & 0x0F) | (((int)qh_byte >> 0 & 0x03) << 4);
    int b1 = ((vl >>  4) & 0x0F) | (((int)qh_byte >> 2 & 0x03) << 4);
    int b2 = ((vl >>  8) & 0x0F) | (((int)qh_byte >> 4 & 0x03) << 4);
    int b3 = ((vl >> 12) & 0x0F) | (((int)qh_byte >> 6 & 0x03) << 4);
    return b0 | (b1 << 8) | (b2 << 16) | (b3 << 24);
}

__device__ float vec_dot_q6_K_q8_1_larql(
    const unsigned char* bq6_K,
    const unsigned char* y_q8_1_base,
    int kby,
    int iqs
) {
    const unsigned char* ql     = bq6_K;
    const unsigned char* qh     = bq6_K + 128;
    const signed char*   scales = (const signed char*)(bq6_K + 192);
    float d_f = larql_f16_to_f32(
        (unsigned short)bq6_K[208] | ((unsigned short)bq6_K[209] << 8)
    );

    int sub          = iqs / 2;
    int q8_block_off = iqs / 4;
    int q8_chunk     = 2 * (iqs % 4);

    int vl = get_int_b2(ql, iqs);
    unsigned char qh_lo = qh[2 * iqs + 0];
    unsigned char qh_hi = qh[2 * iqs + 1];

    int vi_unsigned_lo = build_q6_quad_unsigned( vl,        qh_lo);
    int vi_unsigned_hi = build_q6_quad_unsigned( vl >> 16,  qh_hi);

    int vi_lo = vsub4_s32_sat(vi_unsigned_lo, 0x20202020);
    int vi_hi = vsub4_s32_sat(vi_unsigned_hi, 0x20202020);

    const unsigned char* bq8 = y_q8_1_base + (size_t)(kby + q8_block_off) * 36;
    float scale_q8 = larql_f16_to_f32(
        (unsigned short)bq8[0] | ((unsigned short)bq8[1] << 8)
    );
    const unsigned int* q8 = (const unsigned int*)(bq8 + 4);
    int u_lo = q8[q8_chunk + 0];
    int u_hi = q8[q8_chunk + 1];

    int sc = (int)scales[sub];

    int sumi = dp4a_s32(vi_lo, u_lo, 0) + dp4a_s32(vi_hi, u_hi, 0);
    return d_f * scale_q8 * (float)sc * (float)sumi;
}

extern "C" __global__ void mul_mat_vec_q6_K_q8_1_f32(
    const unsigned char* __restrict__ vbq,
    const unsigned char* __restrict__ vy,
    float*               __restrict__ dst,
    int rows,
    int n_super_blocks
) {
    int tid_x = threadIdx.x;
    int tid_y = threadIdx.y;
    int row   = blockIdx.x * blockDim.y + tid_y;
    if (row >= rows) return;

    int iqs = tid_x;

    const unsigned char* row_base =
        vbq + (size_t)row * (size_t)n_super_blocks * 210ull;

    float partial = 0.0f;

    for (int kbx = 0; kbx < n_super_blocks; ++kbx) {
        int kby = kbx * 8;
        partial += vec_dot_q6_K_q8_1_larql(
            row_base + (size_t)kbx * 210,
            vy,
            kby,
            iqs
        );
    }

    #pragma unroll
    for (int o = 16; o > 0; o >>= 1) {
        partial += __shfl_xor_sync(0xffffffff, partial, o);
    }

    if (tid_x == 0) {
        dst[row] = partial;
    }
}
