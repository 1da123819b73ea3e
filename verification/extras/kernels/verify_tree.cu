// Walks a path of drafted tokens and accepts, corrects or extends it by rejection sampling.

__device__ float larql_splitmix64_next_f32(unsigned long long *state) {
    *state += 0x9E3779B97F4A7C15ULL;
    unsigned long long z = *state;
    z = (z ^ (z >> 30)) * 0xBF58476D1CE4E5B9ULL;
    z = (z ^ (z >> 27)) * 0x94D049BB133111EBULL;
    z = z ^ (z >> 31);
    unsigned int top24 = (unsigned int)(z >> 40);
    return ((float)top24) / 16777216.0f;
}

extern "C" __global__ void verify_tree_kernel(
    const float *p_target,
    const int *path_drafts,
    const float *path_pdraft,
    int path_len,
    int vocab,
    unsigned long long seed,
    int *accepted_out,
    int *corrected_out,
    int *bonus_out
) {
    if (threadIdx.x != 0 || blockIdx.x != 0) return;

    unsigned long long state = seed;

    for (int k = 0; k < path_len; k++) accepted_out[k] = -1;
    *corrected_out = -1;
    *bonus_out = -1;

    for (int k = 0; k < path_len; k++) {
        const float *p_row = p_target + (long long)k * (long long)vocab;
        int draft_id = path_drafts[k];
        float pd = path_pdraft[k];

        if (pd < 1.175494351e-38f) pd = 1.175494351e-38f;
        float pt = p_row[draft_id];
        float ratio = pt / pd;
        float accept_prob = ratio < 1.0f ? ratio : 1.0f;

        float u = larql_splitmix64_next_f32(&state);
        if (u < accept_prob) {
            accepted_out[k] = draft_id;
            continue;
        }

        float subtract = pd < pt ? pd : pt;
        float z_sum = 0.0f;
        for (int i = 0; i < vocab; i++) {
            float v = p_row[i];
            if (i == draft_id) v -= subtract;
            if (v < 0.0f) v = 0.0f;
            z_sum += v;
        }

        int picked = vocab - 1;
        if (z_sum <= 0.0f) {

            float total = 0.0f;
            for (int i = 0; i < vocab; i++) total += p_row[i];
            if (total <= 0.0f) {
                *corrected_out = 0;
                return;
            }
            float u2 = larql_splitmix64_next_f32(&state) * total;
            float acc = 0.0f;
            for (int i = 0; i < vocab; i++) {
                acc += p_row[i];
                if (u2 < acc) { picked = i; break; }
            }
        } else {
            float u2 = larql_splitmix64_next_f32(&state) * z_sum;
            float acc = 0.0f;
            for (int i = 0; i < vocab; i++) {
                float v = p_row[i];
                if (i == draft_id) v -= subtract;
                if (v < 0.0f) v = 0.0f;
                acc += v;
                if (u2 < acc) { picked = i; break; }
            }
        }
        *corrected_out = picked;
        return;
    }

    const float *p_last = p_target + (long long)(path_len - 1) * (long long)vocab;
    float total = 0.0f;
    for (int i = 0; i < vocab; i++) total += p_last[i];
    if (total <= 0.0f) {
        *bonus_out = 0;
        return;
    }
    float u3 = larql_splitmix64_next_f32(&state) * total;
    float acc = 0.0f;
    int picked = vocab - 1;
    for (int i = 0; i < vocab; i++) {
        acc += p_last[i];
        if (u3 < acc) { picked = i; break; }
    }
    *bonus_out = picked;
}

extern "C" __global__ void verify_tree_kernel_p(
    const float *p_target,
    const int *path_drafts,
    const float *path_pdraft,
    int path_len,
    int vocab,
    unsigned long long seed,
    int *accepted_out,
    int *corrected_out,
    int *bonus_out
) {
    int tid = threadIdx.x;
    int bdim = blockDim.x;
    extern __shared__ float smem[];

    __shared__ unsigned long long state_s;
    __shared__ int decision_s;
    __shared__ float pt_s;
    __shared__ float pd_s;
    __shared__ float zsum_s;
    __shared__ int rejected_at_s;

    if (tid == 0) {
        state_s = seed;
        rejected_at_s = -1;
        for (int k = 0; k < path_len; k++) accepted_out[k] = -1;
        *corrected_out = -1;
        *bonus_out = -1;
    }
    __syncthreads();

    int reject_k = -1;
    for (int k = 0; k < path_len; k++) {
        const float *p_row = p_target + (long long)k * (long long)vocab;
        if (tid == 0) {
            int draft_id = path_drafts[k];
            float pd = path_pdraft[k];
            if (pd < 1.175494351e-38f) pd = 1.175494351e-38f;
            float pt = p_row[draft_id];
            pt_s = pt;
            pd_s = pd;
            float ratio = pt / pd;
            float accept_prob = ratio < 1.0f ? ratio : 1.0f;
            float u = larql_splitmix64_next_f32(&state_s);
            decision_s = (u < accept_prob) ? 1 : 0;
            if (decision_s == 1) accepted_out[k] = draft_id;
        }
        __syncthreads();
        if (decision_s == 1) {
            continue;
        }

        int draft_id = path_drafts[k];
        float subtract = pd_s < pt_s ? pd_s : pt_s;
        float local = 0.0f;
        for (int i = tid; i < vocab; i += bdim) {
            float v = p_row[i];
            if (i == draft_id) v -= subtract;
            if (v < 0.0f) v = 0.0f;
            local += v;
        }
        smem[tid] = local;
        __syncthreads();
        for (int stride = bdim >> 1; stride > 0; stride >>= 1) {
            if (tid < stride) smem[tid] += smem[tid + stride];
            __syncthreads();
        }
        if (tid == 0) {
            zsum_s = smem[0];
            rejected_at_s = k;
        }
        __syncthreads();
        reject_k = k;
        break;
    }

    if (rejected_at_s >= 0) {
        if (tid == 0) {
            const float *p_row = p_target + (long long)rejected_at_s * (long long)vocab;
            int draft_id = path_drafts[rejected_at_s];
            float subtract = pd_s < pt_s ? pd_s : pt_s;
            float zsum = zsum_s;
            int picked = vocab - 1;
            if (zsum <= 0.0f) {

                float total = 0.0f;
                for (int i = 0; i < vocab; i++) total += p_row[i];
                if (total > 0.0f) {
                    float u2 = larql_splitmix64_next_f32(&state_s) * total;
                    float acc = 0.0f;
                    for (int i = 0; i < vocab; i++) {
                        acc += p_row[i];
                        if (u2 < acc) { picked = i; break; }
                    }
                } else {
                    picked = 0;
                }
            } else {
                float u2 = larql_splitmix64_next_f32(&state_s) * zsum;
                float acc = 0.0f;
                for (int i = 0; i < vocab; i++) {
                    float v = p_row[i];
                    if (i == draft_id) v -= subtract;
                    if (v < 0.0f) v = 0.0f;
                    acc += v;
                    if (u2 < acc) { picked = i; break; }
                }
            }
            *corrected_out = picked;
        }
        return;
    }

    const float *p_last = p_target + (long long)(path_len - 1) * (long long)vocab;
    float local_total = 0.0f;
    for (int i = tid; i < vocab; i += bdim) local_total += p_last[i];
    smem[tid] = local_total;
    __syncthreads();
    for (int stride = bdim >> 1; stride > 0; stride >>= 1) {
        if (tid < stride) smem[tid] += smem[tid + stride];
        __syncthreads();
    }
    if (tid == 0) {
        float total = smem[0];
        if (total <= 0.0f) {
            *bonus_out = 0;
            return;
        }
        float u3 = larql_splitmix64_next_f32(&state_s) * total;
        float acc = 0.0f;
        int picked = vocab - 1;
        for (int i = 0; i < vocab; i++) {
            acc += p_last[i];
            if (u3 < acc) { picked = i; break; }
        }
        *bonus_out = picked;
    }
    (void)reject_k;
}
