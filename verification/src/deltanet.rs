//! Checks and launch geometry of the single DeltaNet kernels.

use vstd::prelude::*;

use crate::error::CudaInitError;
use crate::launch::LaunchConfig;
use crate::packed::{grid_blocks, grid_of};
use crate::text::{dec, push_dec};

verus! {

/// Launch of a kernel with one thread for each element.
pub open spec fn elementwise(n: usize) -> LaunchConfig {
    LaunchConfig {
        grid_dim: (grid_of(n, 256), 1, 1),
        block_dim: (256, 1, 1),
        shared_mem_bytes: 0,
    }
}

pub fn elementwise_launch(n: usize) -> (c: LaunchConfig)
    ensures
        c == elementwise(n),
        c.block_dim == (256u32, 1u32, 1u32) && c.grid_dim.1 == 1 && c.grid_dim.2 == 1,
        c.shared_mem_bytes == 0,
        n <= u32::MAX ==> c.grid_dim.0 * 256 >= n && c.grid_dim.0 * 256 < n + 256,
{
    LaunchConfig {
        grid_dim: (grid_blocks(n, 256), 1, 1),
        block_dim: (256, 1, 1),
        shared_mem_bytes: 0,
    }
}

/// Launch of a kernel with one block for each head that sums over the head.
pub open spec fn per_head(heads: usize) -> LaunchConfig {
    LaunchConfig {
        grid_dim: (heads as u32, 1, 1),
        block_dim: (256, 1, 1),
        shared_mem_bytes: 1024,
    }
}

pub fn per_head_launch(heads: usize) -> (c: LaunchConfig)
    ensures
        c == per_head(heads),
        c.grid_dim == (heads as u32, 1u32, 1u32) && c.block_dim == (256u32, 1u32, 1u32),
        c.shared_mem_bytes == 4 * 256,
{
    LaunchConfig {
        grid_dim: (#[verifier::truncate] (heads as u32), 1, 1),
        block_dim: (256, 1, 1),
        shared_mem_bytes: 1024,
    }
}

/// Launch of the recurrence: one block for each value head, with room for a query and a
/// key.
pub open spec fn recurrence(s: usize, h_v: usize) -> LaunchConfig {
    LaunchConfig {
        grid_dim: (h_v as u32, 1, 1),
        block_dim: (256, 1, 1),
        shared_mem_bytes: ((2 * s * 4) as usize) as u32,
    }
}

pub fn recurrence_launch(s: usize, h_v: usize) -> (c: LaunchConfig)
    requires
        2 * s * 4 <= usize::MAX,
    ensures
        c == recurrence(s, h_v),
        c.grid_dim == (h_v as u32, 1u32, 1u32) && c.block_dim == (256u32, 1u32, 1u32),
        8 * s <= u32::MAX ==> c.shared_mem_bytes == 8 * s,
{
    let bytes: usize = 2 * s * 4;
    LaunchConfig {
        grid_dim: (#[verifier::truncate] (h_v as u32), 1, 1),
        block_dim: (256, 1, 1),
        shared_mem_bytes: #[verifier::truncate] (bytes as u32),
    }
}

/// Rows of the convolution's state: one less than its taps.
pub open spec fn state_rows(d_conv: usize) -> int {
    if d_conv == 0 {
        0
    } else {
        d_conv - 1
    }
}

/// The buffers of a convolution step fit together.
pub open spec fn conv1d_ok(
    weight: usize,
    state: usize,
    new_x: usize,
    d_conv: usize,
    conv_dim: usize,
) -> bool {
    &&& d_conv != 0
    &&& weight == d_conv * conv_dim
    &&& state == state_rows(d_conv) * conv_dim
    &&& new_x == conv_dim
}

/// The complaint about a convolution step.
pub open spec fn conv1d_text(
    cached: bool,
    weight: usize,
    state: usize,
    new_x: usize,
    d_conv: usize,
    conv_dim: usize,
) -> Seq<char> {
    (if cached {
        "invalid cached conv1d shape weight="@
    } else {
        "invalid conv1d shape weight="@
    }) + dec(weight as nat) + " state="@ + dec(state as nat) + " new="@ + dec(new_x as nat)
        + " d_conv="@ + dec(d_conv as nat) + " conv_dim="@ + dec(conv_dim as nat)
}

/// Checks one step of the causal convolution and lays out its launch. `cached` tells
/// whether the state stays on the device.
pub fn causal_conv1d_step(
    cached: bool,
    weight: usize,
    state: usize,
    new_x: usize,
    d_conv: usize,
    conv_dim: usize,
) -> (r: Result<LaunchConfig, CudaInitError>)
    requires
        d_conv * conv_dim <= usize::MAX,
    ensures
        r is Ok == conv1d_ok(weight, state, new_x, d_conv, conv_dim),
        r matches Ok(c) ==> c == elementwise(conv_dim),
        r matches Err(e) ==> e.says(conv1d_text(cached, weight, state, new_x, d_conv, conv_dim)),
        r matches Err(e) ==> e.says(
            (if cached { "invalid cached conv1d shape weight="@ } else { "invalid conv1d shape weight="@ })
                + dec(weight as nat) + " state="@ + dec(state as nat) + " new="@ + dec(new_x as nat)
                + " d_conv="@ + dec(d_conv as nat) + " conv_dim="@ + dec(conv_dim as nat),
        ),
        r is Ok <==> {
            &&& d_conv > 0 && weight == d_conv * conv_dim
            &&& state == (d_conv - 1) * conv_dim && new_x == conv_dim
        },
        r matches Ok(c) ==> c.block_dim == (256u32, 1u32, 1u32) && (conv_dim <= u32::MAX
            ==> c.grid_dim.0 * 256 >= conv_dim && c.grid_dim.0 * 256 < conv_dim + 256),
{
    let fits: bool = d_conv != 0 && {
        assert((d_conv - 1) * conv_dim <= d_conv * conv_dim) by (nonlinear_arith)
            requires
                d_conv > 0,
        ;
        weight == d_conv * conv_dim && state == (d_conv - 1) * conv_dim && new_x == conv_dim
    };
    if !fits {
        let mut s: String = if cached {
            "invalid cached conv1d shape weight=".to_owned()
        } else {
            "invalid conv1d shape weight=".to_owned()
        };
        push_dec(&mut s, weight as u64);
        s.append(" state=");
        push_dec(&mut s, state as u64);
        s.append(" new=");
        push_dec(&mut s, new_x as u64);
        s.append(" d_conv=");
        push_dec(&mut s, d_conv as u64);
        s.append(" conv_dim=");
        push_dec(&mut s, conv_dim as u64);
        return Err(CudaInitError::DriverMissing(s));
    }
    Ok(elementwise_launch(conv_dim))
}

/// Lengths of the buffers of a recurrence step.
#[derive(Clone, Copy, Debug, PartialEq, Eq, Structural)]
pub struct RecurrenceLens {
    pub q: usize,
    pub k: usize,
    pub v: usize,
    pub log_g: usize,
    pub beta: usize,
    pub state: usize,
}

impl RecurrenceLens {
    /// The buffers fit a head width of `s`, `h_k` key heads and `h_v` value heads.
    pub open spec fn fit(self, s: usize, h_k: usize, h_v: usize) -> bool {
        &&& s != 0
        &&& h_k != 0
        &&& h_v != 0
        &&& self.q == s * h_k
        &&& self.k == s * h_k
        &&& self.v == s * h_v
        &&& self.log_g == h_v
        &&& self.beta == h_v
        &&& self.state == s * s * h_v
    }
}

/// The lengths that a recurrence step computes with can be held in a `usize`.
pub open spec fn recurrence_sizes_fit(s: usize, h_k: usize, h_v: usize) -> bool {
    &&& s * h_k <= usize::MAX
    &&& s * h_v <= usize::MAX
    &&& s * s <= usize::MAX
    &&& s * s * h_v <= usize::MAX
    &&& 2 * s * 4 <= usize::MAX
}

/// The complaint about a recurrence step.
pub open spec fn recurrence_text(
    cached: bool,
    l: RecurrenceLens,
    s: usize,
    h_k: usize,
    h_v: usize,
) -> Seq<char> {
    (if cached {
        "invalid cached deltanet shape q="@
    } else {
        "invalid deltanet shape q="@
    }) + dec(l.q as nat) + " k="@ + dec(l.k as nat) + " v="@ + dec(l.v as nat) + " log_g="@ + dec(
        l.log_g as nat,
    ) + " beta="@ + dec(l.beta as nat) + " state="@ + dec(l.state as nat) + " s="@ + dec(s as nat)
        + " h_k="@ + dec(h_k as nat) + " h_v="@ + dec(h_v as nat)
}

/// Checks one step of the recurrence and lays out its launch. `cached` tells whether the
/// state stays on the device.
pub fn deltanet_step(cached: bool, l: &RecurrenceLens, s: usize, h_k: usize, h_v: usize) -> (r:
    Result<LaunchConfig, CudaInitError>)
    requires
        recurrence_sizes_fit(s, h_k, h_v),
    ensures
        r is Ok == l.fit(s, h_k, h_v),
        r matches Ok(c) ==> c == recurrence(s, h_v),
        r matches Err(e) ==> e.says(recurrence_text(cached, *l, s, h_k, h_v)),
        r matches Err(e) ==> e.says(
            (if cached { "invalid cached deltanet shape q="@ } else { "invalid deltanet shape q="@ })
                + dec(l.q as nat) + " k="@ + dec(l.k as nat) + " v="@ + dec(l.v as nat) + " log_g="@
                + dec(l.log_g as nat) + " beta="@ + dec(l.beta as nat) + " state="@
                + dec(l.state as nat) + " s="@ + dec(s as nat) + " h_k="@ + dec(h_k as nat)
                + " h_v="@ + dec(h_v as nat),
        ),
        r is Ok <==> {
            &&& s > 0 && h_k > 0 && h_v > 0
            &&& l.q == s * h_k && l.k == s * h_k && l.v == s * h_v
            &&& l.log_g == h_v && l.beta == h_v && l.state == s * s * h_v
        },
        r matches Ok(c) ==> c.grid_dim == (h_v as u32, 1u32, 1u32) && c.block_dim == (
            256u32,
            1u32,
            1u32,
        ),
{
    if s == 0 || h_k == 0 || h_v == 0 || l.q != s * h_k || l.k != s * h_k || l.v != s * h_v
        || l.log_g != h_v || l.beta != h_v || l.state != s * s * h_v {
        let mut t: String = if cached {
            "invalid cached deltanet shape q=".to_owned()
        } else {
            "invalid deltanet shape q=".to_owned()
        };
        push_dec(&mut t, l.q as u64);
        t.append(" k=");
        push_dec(&mut t, l.k as u64);
        t.append(" v=");
        push_dec(&mut t, l.v as u64);
        t.append(" log_g=");
        push_dec(&mut t, l.log_g as u64);
        t.append(" beta=");
        push_dec(&mut t, l.beta as u64);
        t.append(" state=");
        push_dec(&mut t, l.state as u64);
        t.append(" s=");
        push_dec(&mut t, s as u64);
        t.append(" h_k=");
        push_dec(&mut t, h_k as u64);
        t.append(" h_v=");
        push_dec(&mut t, h_v as u64);
        return Err(CudaInitError::DriverMissing(t));
    }
    Ok(recurrence_launch(s, h_v))
}

/// Checks the L2 normalisation of each head and lays out its launch.
pub fn l2_normalize_per_head(x: usize, head_dim: usize, n_heads: usize) -> (r: Result<
    LaunchConfig,
    CudaInitError,
>)
    requires
        head_dim * n_heads <= usize::MAX,
    ensures
        r is Ok == (head_dim != 0 && n_heads != 0 && x == head_dim * n_heads),
        r matches Ok(c) ==> c == per_head(n_heads),
        r matches Err(e) ==> e.says(
            "invalid l2 shape x="@ + dec(x as nat) + " head_dim="@ + dec(head_dim as nat)
                + " n_heads="@ + dec(n_heads as nat),
        ),
{
    if head_dim == 0 || n_heads == 0 || x != head_dim * n_heads {
        let mut s: String = "invalid l2 shape x=".to_owned();
        push_dec(&mut s, x as u64);
        s.append(" head_dim=");
        push_dec(&mut s, head_dim as u64);
        s.append(" n_heads=");
        push_dec(&mut s, n_heads as u64);
        return Err(CudaInitError::DriverMissing(s));
    }
    Ok(per_head_launch(n_heads))
}

/// Checks the RMS normalisation of each head and lays out its launch.
pub fn rms_norm_heads(x: usize, weight: usize, num_heads: usize, head_dim: usize) -> (r: Result<
    LaunchConfig,
    CudaInitError,
>)
    requires
        num_heads * head_dim <= usize::MAX,
    ensures
        r is Ok == (num_heads != 0 && head_dim != 0 && x == num_heads * head_dim && weight
            == head_dim),
        r matches Ok(c) ==> c == per_head(num_heads),
        r matches Err(e) ==> e.says(
            "invalid rms heads shape x="@ + dec(x as nat) + " weight="@ + dec(weight as nat)
                + " num_heads="@ + dec(num_heads as nat) + " head_dim="@ + dec(head_dim as nat),
        ),
{
    if num_heads == 0 || head_dim == 0 || x != num_heads * head_dim || weight != head_dim {
        let mut s: String = "invalid rms heads shape x=".to_owned();
        push_dec(&mut s, x as u64);
        s.append(" weight=");
        push_dec(&mut s, weight as u64);
        s.append(" num_heads=");
        push_dec(&mut s, num_heads as u64);
        s.append(" head_dim=");
        push_dec(&mut s, head_dim as u64);
        return Err(CudaInitError::DriverMissing(s));
    }
    Ok(per_head_launch(num_heads))
}

/// A launch by elements has a thread for each of them and no block without one.
pub proof fn law_elementwise_covers(n: usize, e: int)
    requires
        n <= u32::MAX,
        0 <= e < n,
    ensures
        ({
            let c = elementwise(n);
            &&& c.block_dim == (256u32, 1u32, 1u32) && c.grid_dim.1 == 1 && c.grid_dim.2 == 1
            &&& e / 256 < c.grid_dim.0
            &&& (c.grid_dim.0 - 1) * 256 < n
            &&& c.shared_mem_bytes == 0
        }),
{
    crate::packed::law_grid_covers_rows(n, 256);
}

/// A launch by heads has a block for each of them, and a slot of shared memory for each thread.
pub proof fn law_per_head_covers(heads: usize)
    requires
        heads <= u32::MAX,
    ensures
        ({
            let c = per_head(heads);
            &&& c.grid_dim == (heads as u32, 1u32, 1u32)
            &&& c.block_dim == (256u32, 1u32, 1u32)
            &&& c.shared_mem_bytes == 4 * c.block_dim.0
        }),
{
}

/// The recurrence has a block for each value head, with room for a query and a key of a head.
pub proof fn law_recurrence_covers(s: usize, h_v: usize)
    requires
        h_v <= u32::MAX,
        8 * s <= u32::MAX,
    ensures
        ({
            let c = recurrence(s, h_v);
            &&& c.grid_dim == (h_v as u32, 1u32, 1u32)
            &&& c.block_dim == (256u32, 1u32, 1u32)
            &&& c.shared_mem_bytes == 4 * (s + s)
        }),
{
}

/// A convolution with `d_conv` taps looks at its new row and at one row of its state for each
/// other tap: state and new row together are as long as the weight.
pub proof fn law_conv1d_shape(weight: usize, state: usize, new_x: usize, d_conv: usize, conv_dim: usize)
    ensures
        d_conv > 0 ==> state_rows(d_conv) + 1 == d_conv,
        conv1d_ok(weight, state, new_x, d_conv, conv_dim) ==> state + new_x == weight && new_x
            == conv_dim && d_conv > 0,
        conv1d_ok(weight, state, new_x, d_conv, conv_dim) <==> d_conv > 0 && weight == d_conv
            * conv_dim && state == weight - conv_dim && new_x == conv_dim,
{
    if d_conv > 0 {
        assert((d_conv - 1) * conv_dim == d_conv * conv_dim - conv_dim) by (nonlinear_arith);
    }
}

/// A recurrence step takes a query and a key for each key head, a value, a decay, a weight and a
/// square state for each value head, all of one width, and nothing that is empty.
pub proof fn law_recurrence_shape(l: RecurrenceLens, s: usize, h_k: usize, h_v: usize)
    ensures
        l.fit(s, h_k, h_v) <==> {
            &&& s > 0 && h_k > 0 && h_v > 0
            &&& l.q == h_k * s && l.k == l.q
            &&& l.v == h_v * s
            &&& l.log_g == h_v && l.beta == l.log_g
            &&& l.state == h_v * (s * s)
        },
{
    assert(s * h_k == h_k * s && s * h_v == h_v * s && s * s * h_v == h_v * (s * s))
        by (nonlinear_arith);
}

} // verus!
