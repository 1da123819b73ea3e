// Element-wise steps between the projections of a layer.

extern "C" __global__ void rms_norm_f32(
    const float* x, const float* w, float* y,
    int dim, float eps, float offset, int has_weight
) {
    extern __shared__ float partial[];
    const float* row = x + (long long)blockIdx.x * dim;
    float* out = y + (long long)blockIdx.x * dim;
    float sum = 0.0f;
    for (int i = threadIdx.x; i < dim; i += blockDim.x) sum += row[i] * row[i];
    partial[threadIdx.x] = sum;
    __syncthreads();
    for (int half = blockDim.x / 2; half > 0; half /= 2) {
        if (threadIdx.x < half) partial[threadIdx.x] += partial[threadIdx.x + half];
        __syncthreads();
    }
    float inv = rsqrtf(partial[0] / (float)dim + eps);
    for (int i = threadIdx.x; i < dim; i += blockDim.x) {
        float weight = has_weight ? w[i] + offset : 1.0f;
        out[i] = row[i] * inv * weight;
    }
}

extern "C" __global__ void rms_norm_add_f32(
    const float* x, const float* w, float* h,
    int dim, float eps, float offset, float scale, int has_weight
) {
    extern __shared__ float partial[];
    float sum = 0.0f;
    for (int i = threadIdx.x; i < dim; i += blockDim.x) sum += x[i] * x[i];
    partial[threadIdx.x] = sum;
    __syncthreads();
    for (int half = blockDim.x / 2; half > 0; half /= 2) {
        if (threadIdx.x < half) partial[threadIdx.x] += partial[threadIdx.x + half];
        __syncthreads();
    }
    float inv = rsqrtf(partial[0] / (float)dim + eps);
    for (int i = threadIdx.x; i < dim; i += blockDim.x) {
        float weight = has_weight ? w[i] + offset : 1.0f;
        h[i] = (h[i] + x[i] * inv * weight) * scale;
    }
}

extern "C" __global__ void add_in_place_f32(float* h, const float* x, int n) {
    int i = blockIdx.x * blockDim.x + threadIdx.x;
    if (i < n) h[i] += x[i];
}

extern "C" __global__ void scale_in_place_f32(float* h, float s, int n) {
    int i = blockIdx.x * blockDim.x + threadIdx.x;
    if (i < n) h[i] *= s;
}

extern "C" __global__ void gate_up_f32(
    const float* gate, const float* up, float* out, int n, int gelu_tanh
) {
    int i = blockIdx.x * blockDim.x + threadIdx.x;
    if (i >= n) return;
    float g = gate[i];
    float a;
    if (gelu_tanh) {
        float inner = 0.7978845608f * (g + 0.044715f * g * g * g);
        a = 0.5f * g * (1.0f + tanhf(inner));
    } else {
        a = g / (1.0f + expf(-g));
    }
    out[i] = a * up[i];
}

__device__ unsigned short elem_f32_to_f16(float f) {
    unsigned short h;
    asm("cvt.rn.f16.f32 %0, %1;" : "=h"(h) : "f"(f));
    return h;
}

__device__ float elem_f16_to_f32(unsigned short h) {
    float f;
    asm("cvt.f32.f16 %0, %1;" : "=f"(f) : "h"(h));
    return f;
}

// One block of 32 elements per warp: scale, sum, then the codes.
extern "C" __global__ void quantize_q8_1_f32(const float* x, unsigned char* out, int n_blocks) {
    int block = (blockIdx.x * blockDim.x + threadIdx.x) / 32;
    int lane = threadIdx.x % 32;
    if (block >= n_blocks) return;
    float v = x[(long long)block * 32 + lane];
    float amax = fabsf(v);
    float sum = v;
    for (int offset = 16; offset > 0; offset /= 2) {
        amax = fmaxf(amax, __shfl_xor_sync(0xffffffffu, amax, offset));
        sum += __shfl_xor_sync(0xffffffffu, sum, offset);
    }
    float d = amax / 127.0f;
    unsigned char* dst = out + (long long)block * 36;
    dst[4 + lane] = (unsigned char)(signed char)(amax == 0.0f ? 0 : (int)roundf(v / d));
    if (lane == 0) {
        unsigned short dh = elem_f32_to_f16(d);
        unsigned short sh = elem_f32_to_f16(sum);
        dst[0] = (unsigned char)(dh & 0xff);
        dst[1] = (unsigned char)(dh >> 8);
        dst[2] = (unsigned char)(sh & 0xff);
        dst[3] = (unsigned char)(sh >> 8);
    }
}

extern "C" __global__ void f32_to_f16(const float* x, unsigned short* y, int n) {
    int i = blockIdx.x * blockDim.x + threadIdx.x;
    if (i < n) y[i] = elem_f32_to_f16(x[i]);
}

extern "C" __global__ void f16_to_f32(const unsigned short* x, float* y, int n) {
    int i = blockIdx.x * blockDim.x + threadIdx.x;
    if (i < n) y[i] = elem_f16_to_f32(x[i]);
}
