// Q4_K weight times up to eight rows.

__device__ float larql_f16_to_f32_b(unsigned short h) {
    unsigned int sign = ((unsigned int)h & 0x8000u) << 16;
    unsigned int mant = (unsigned int)h & 0x03ffu;
    int exp = ((int)h >> 10) & 0x1f;
    unsigned int bits;
    if (exp == 0) {
        if (mant == 0u) {
            bits = sign;
        } else {
            float v = (float)mant * 5.960464477539063e-8f;
            return (sign != 0u) ? -v : v;
        }
    } else if (exp == 31) {
        bits = sign | 0x7f800000u | (mant << 13);
    } else {
        bits = sign | ((unsigned int)(exp + 112) << 23) | (mant << 13);
    }
    return __uint_as_float(bits);
}

__device__ unsigned char q4k_scale_b(const unsigned char* packed, int j) {
    if (j < 4) return packed[j] & 0x3fu;
    return (packed[j + 4] & 0x0fu) | ((packed[j - 4] >> 6) << 4);
}

__device__ unsigned char q4k_min_b(const unsigned char* packed, int j) {
    if (j < 4) return packed[j + 4] & 0x3fu;
    return (packed[j + 4] >> 4) | ((packed[j] >> 6) << 4);
}

extern "C" __global__ void q4k_matvec_batched(
    const unsigned char* q4k,
    const float* x,
    float* y,
    int rows,
    int hidden,
    int blocks_per_row,
    int m_tile
) {
    int row = blockIdx.x * blockDim.y + threadIdx.y;
    if (row >= rows) return;
    int tid = threadIdx.x;
    int bdim = blockDim.x;
    int row_lane = threadIdx.y;
    extern __shared__ float smem[];

    float acc[8];
    #pragma unroll
    for (int m = 0; m < 8; m++) acc[m] = 0.0f;

    const unsigned char* row_base = q4k + (unsigned long long)row * blocks_per_row * 144ull;

    for (int sb = 0; sb < blocks_per_row; ++sb) {
        const unsigned char* block = row_base + sb * 144;
        float d = larql_f16_to_f32_b((unsigned short)block[0] | ((unsigned short)block[1] << 8));
        float dmin = larql_f16_to_f32_b((unsigned short)block[2] | ((unsigned short)block[3] << 8));
        const unsigned char* packed = block + 4;
        const unsigned char* quants = block + 16;
        int x_base = sb * 256;

        for (int elem = tid; elem < 256; elem += bdim) {
            int sub = elem >> 5;
            int lane = elem & 31;
            int pair = sub >> 1;
            unsigned char byte = quants[pair * 32 + lane];
            unsigned char nibble = (sub & 1) ? (byte >> 4) : (byte & 0x0f);
            float sc = d * (float)q4k_scale_b(packed, sub);
            float mn = dmin * (float)q4k_min_b(packed, sub);
            float w = sc * (float)nibble - mn;

            for (int m = 0; m < m_tile; m++) {
                float xv = x[m * hidden + x_base + elem];
                acc[m] += w * xv;
            }
        }
    }

    for (int m = 0; m < m_tile; m++) {
        int slot = (row_lane * 8 + m) * bdim + tid;
        smem[slot] = acc[m];
        __syncthreads();
        for (int stride = bdim >> 1; stride > 0; stride >>= 1) {
            if (tid < stride) {
                smem[slot] += smem[slot + stride];
            }
            __syncthreads();
        }
        if (tid == 0) {
            y[m * rows + row] = smem[(row_lane * 8 + m) * bdim];
        }
    }
}
