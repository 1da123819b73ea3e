//! Q4_K matvec from packed weights and a packed row, by one of two kernels.

use vstd::prelude::*;

use crate::error::{refused, CudaInitError};
use crate::flags::{off_unless_one, on_unless_zero, set_to};
use crate::launch::LaunchConfig;
use crate::packed::{
    input_blocks_error, input_blocks_text, length_error, length_text, make_tiled_launch, mmvq_check,
    mmvq_complaint, mmvq_shape_error, mmvq_shape_text, output_error, output_text, overflow_error,
    overflow_text, tiled_launch, BlockFormat, MmvqLaunch, PackedRow, Q4K_BLOCK_BYTES,
    Q4K_BLOCK_ELEMS, ROWS_PER_BLOCK, WARP_SIZE,
};
use crate::q4k_direct::q4k;
use crate::text::{at_most, dec, parse_unsigned, push_dec, unsigned_text};

verus! {

/// Warps that share a row in the cooperative kernel.
pub const COOP_NWARPS: u32 = 4;

/// Whether the cooperative kernel is used: as the setting says, else for long rows and
/// for few rows.
pub open spec fn coop(setting: Option<&str>, rows: usize, hidden: usize) -> bool {
    if set_to(setting, "1"@) {
        true
    } else if set_to(setting, "0"@) {
        false
    } else {
        hidden / Q4K_BLOCK_ELEMS >= 16 || rows <= 1024
    }
}

pub fn q4k_mmvq_use_coop(setting: Option<&str>, rows: usize, hidden: usize) -> (r: bool)
    ensures
        r == coop(setting, rows, hidden),
        setting is Some && setting->0@ == "1"@ ==> r,
        setting is Some && setting->0@ == "0"@ ==> !r,
        setting is None ==> (r <==> hidden >= 4096 || rows <= 1024),
{
    proof {
        reveal_strlit("1");
        reveal_strlit("0");
        assert("1"@[0] != "0"@[0]);
    }
    if off_unless_one(setting) {
        return true;
    }
    if !on_unless_zero(setting) {
        return false;
    }
    hidden / Q4K_BLOCK_ELEMS >= 16 || rows <= 1024
}

/// The rows for each block of threads that the setting asks for, if it is one that the
/// kernel takes.
pub open spec fn asked_rows_per_block(setting: Option<&str>) -> Option<nat> {
    match setting {
        Some(v) => match at_most(unsigned_text(v@), u32::MAX as nat) {
            Some(n) => if n == 1 || n == 2 || n == 4 || n == 8 || n == 16 {
                Some(n)
            } else {
                None
            },
            None => None,
        },
        None => None,
    }
}

/// Rows for each block of threads: what the setting asks for, else four.
pub open spec fn rows_per_block(setting: Option<&str>) -> nat {
    match asked_rows_per_block(setting) {
        Some(n) => n,
        None => ROWS_PER_BLOCK as nat,
    }
}

pub fn choose_rows_per_block(setting: Option<&str>) -> (r: u32)
    ensures
        r == rows_per_block(setting),
        r > 0,
        r == 1 || r == 2 || r == 4 || r == 8 || r == 16,
        setting is None ==> r == 4,
{
    if let Some(v) = setting {
        if let Some(n) = parse_unsigned(v, u32::MAX as u64) {
            if n == 1 || n == 2 || n == 4 || n == 8 || n == 16 {
                return n as u32;
            }
        }
    }
    ROWS_PER_BLOCK
}

/// The targets that the kernels can be compiled for.
pub open spec fn known_arch(name: Seq<char>) -> bool {
    name == "compute_61"@ || name == "compute_70"@ || name == "compute_75"@ || name
        == "compute_80"@ || name == "compute_86"@ || name == "compute_89"@
}

fn same_text(a: &str, b: &str) -> (r: bool)
    ensures
        r == (a@ == b@),
{
    let n: usize = a.unicode_len();
    if n != b.unicode_len() {
        return false;
    }
    let mut i: usize = 0;
    while i < n
        invariant
            i <= n,
            n == a@.len(),
            n == b@.len(),
            forall|k: int| 0 <= k < i ==> a@[k] == b@[k],
        decreases n - i,
    {
        if a.get_char(i) != b.get_char(i) {
            return false;
        }
        i = i + 1;
    }
    assert(a@ =~= b@);
    true
}

/// The target that the kernels are compiled for: the setting's where it names one, else
/// the oldest that has the instructions.
pub fn compile_arch(setting: Option<&str>) -> (r: &'static str)
    ensures
        known_arch(r@),
        r@ == match setting {
            Some(v) => if known_arch(v@) {
                v@
            } else {
                "compute_61"@
            },
            None => "compute_61"@,
        },
{
    if let Some(v) = setting {
        if same_text(v, "compute_70") {
            return "compute_70";
        }
        if same_text(v, "compute_75") {
            return "compute_75";
        }
        if same_text(v, "compute_80") {
            return "compute_80";
        }
        if same_text(v, "compute_86") {
            return "compute_86";
        }
        if same_text(v, "compute_89") {
            return "compute_89";
        }
    }
    "compute_61"
}

/// The launch of the cooperative kernel: one block of threads for each row.
pub open spec fn coop_launch(rows: usize, n_super_blocks: usize) -> MmvqLaunch {
    MmvqLaunch {
        cfg: LaunchConfig {
            grid_dim: (rows as u32, 1, 1),
            block_dim: (WARP_SIZE, COOP_NWARPS, 1),
            shared_mem_bytes: 16,
        },
        rows: rows as i32,
        n_super_blocks: n_super_blocks as i32,
    }
}

/// A matvec that was accepted: the kernel and its launch.
#[derive(Clone, Copy, Debug, PartialEq, Eq)]
pub struct Q4kMmvq {
    pub coop: bool,
    pub launch: MmvqLaunch,
}

/// Checks a matvec by the cooperative kernel.
pub fn matvec_device_into_with_dev_coop(
    dev_len: usize,
    x: &PackedRow,
    y_len: usize,
    rows: usize,
    hidden: usize,
) -> (r: Result<Q4kMmvq, CudaInitError>)
    ensures
        r is Ok == mmvq_complaint("q4k"@, q4k(), true, dev_len, *x, y_len, rows, hidden) is None,
        r matches Ok(m) ==> m == (Q4kMmvq {
            coop: true,
            launch: coop_launch(rows, hidden / Q4K_BLOCK_ELEMS),
        }),
        r matches Err(e) ==> mmvq_complaint("q4k"@, q4k(), true, dev_len, *x, y_len, rows, hidden) matches Some(
            t,
        ) && e.says(t),
        r matches Ok(m) ==> {
            &&& m.coop && m.launch.rows == rows as i32
            &&& m.launch.n_super_blocks == (hidden / 256) as i32
            &&& m.launch.cfg.grid_dim == (rows as u32, 1u32, 1u32)
            &&& m.launch.cfg.block_dim == (32u32, 4u32, 1u32) && m.launch.cfg.shared_mem_bytes == 16
        },
        r is Ok <==> {
            &&& rows != 0 && hidden != 0 && hidden % 256 == 0
            &&& dev_len == rows * ((hidden / 256) * 144)
            &&& x.n_blocks * 32 == hidden && y_len == rows
        },
{
    let f = BlockFormat { elems: Q4K_BLOCK_ELEMS, bytes: Q4K_BLOCK_BYTES };
    match mmvq_check("q4k", f, true, dev_len, x, y_len, rows, hidden) {
        Ok(n) => Ok(
            Q4kMmvq {
                coop: true,
                launch: MmvqLaunch {
                    cfg: LaunchConfig {
                        grid_dim: (#[verifier::truncate] (rows as u32), 1, 1),
                        block_dim: (WARP_SIZE, COOP_NWARPS, 1),
                        shared_mem_bytes: 16,
                    },
                    rows: #[verifier::truncate] (rows as i32),
                    n_super_blocks: #[verifier::truncate] (n as i32),
                },
            },
        ),
        Err(e) => Err(e),
    }
}

/// The first thing wrong with a matvec by the tiled kernel.
pub open spec fn tiled_complaint(
    dev_len: usize,
    x: PackedRow,
    y_len: usize,
    rows: usize,
    hidden: usize,
    rows_per_block: u32,
) -> Option<Seq<char>> {
    if !(rows == 0 || hidden == 0 || hidden % Q4K_BLOCK_ELEMS != 0) && rows_per_block == 0 {
        Some("q4k_mmvq rows_per_block must be > 0"@)
    } else {
        mmvq_complaint("q4k"@, q4k(), true, dev_len, x, y_len, rows, hidden)
    }
}

/// Checks a matvec by the tiled kernel.
pub fn matvec_device_into_with_dev_tiled(
    dev_len: usize,
    x: &PackedRow,
    y_len: usize,
    rows: usize,
    hidden: usize,
    rows_per_block: u32,
) -> (r: Result<Q4kMmvq, CudaInitError>)
    ensures
        r is Ok == tiled_complaint(dev_len, *x, y_len, rows, hidden, rows_per_block) is None,
        r matches Ok(m) ==> m == (Q4kMmvq {
            coop: false,
            launch: tiled_launch(rows, hidden / Q4K_BLOCK_ELEMS, rows_per_block),
        }),
        r matches Err(e) ==> tiled_complaint(dev_len, *x, y_len, rows, hidden, rows_per_block) matches Some(
            t,
        ) && e.says(t),
        r matches Ok(m) ==> {
            &&& !m.coop && m.launch.rows == rows as i32
            &&& m.launch.n_super_blocks == (hidden / 256) as i32
            &&& m.launch.cfg.block_dim == (32u32, rows_per_block, 1u32) && m.launch.cfg.shared_mem_bytes == 0
            &&& m.launch.cfg.grid_dim.1 == 1 && m.launch.cfg.grid_dim.2 == 1
            &&& rows <= u32::MAX ==> m.launch.cfg.grid_dim.0 * rows_per_block >= rows && m.launch.cfg.grid_dim.0 * rows_per_block < rows + rows_per_block
        },
        r is Ok <==> {
            &&& rows != 0 && hidden != 0 && hidden % 256 == 0
            &&& dev_len == rows * ((hidden / 256) * 144)
            &&& x.n_blocks * 32 == hidden && y_len == rows && rows_per_block != 0
        },
{
    if rows == 0 || hidden == 0 || hidden % Q4K_BLOCK_ELEMS != 0 {
        return Err(mmvq_shape_error("q4k", rows, hidden));
    }
    if rows_per_block == 0 {
        return Err(refused("q4k_mmvq rows_per_block must be > 0"));
    }
    let f = BlockFormat { elems: Q4K_BLOCK_ELEMS, bytes: Q4K_BLOCK_BYTES };
    match mmvq_check("q4k", f, true, dev_len, x, y_len, rows, hidden) {
        Ok(n) => Ok(Q4kMmvq { coop: false, launch: make_tiled_launch(rows, n, rows_per_block) }),
        Err(e) => Err(e),
    }
}

/// Checks a matvec with a weight that is on the device, by the kernel that suits it.
pub fn matvec_device_into_with_dev(
    coop_setting: Option<&str>,
    rows_setting: Option<&str>,
    dev_len: usize,
    x: &PackedRow,
    y_len: usize,
    rows: usize,
    hidden: usize,
) -> (r: Result<Q4kMmvq, CudaInitError>)
    ensures
        r is Ok == mmvq_complaint("q4k"@, q4k(), true, dev_len, *x, y_len, rows, hidden) is None,
        r matches Ok(m) ==> m == if coop(coop_setting, rows, hidden) {
            Q4kMmvq { coop: true, launch: coop_launch(rows, hidden / Q4K_BLOCK_ELEMS) }
        } else {
            Q4kMmvq {
                coop: false,
                launch: tiled_launch(
                    rows,
                    hidden / Q4K_BLOCK_ELEMS,
                    rows_per_block(rows_setting) as u32,
                ),
            }
        },
        r matches Err(e) ==> mmvq_complaint("q4k"@, q4k(), true, dev_len, *x, y_len, rows, hidden) matches Some(
            t,
        ) && e.says(t),
        r matches Ok(m) ==> {
            &&& m.coop == coop(coop_setting, rows, hidden)
            &&& m.launch.rows == rows as i32 && m.launch.n_super_blocks == (hidden / 256) as i32
            &&& m.launch.cfg.grid_dim.1 == 1 && m.launch.cfg.grid_dim.2 == 1
            &&& m.coop ==> m.launch.cfg.grid_dim.0 == rows as u32 && m.launch.cfg.block_dim == (
                32u32,
                4u32,
                1u32,
            ) && m.launch.cfg.shared_mem_bytes == 16
            &&& !m.coop ==> m.launch.cfg.block_dim.0 == 32 && m.launch.cfg.block_dim.1
                == rows_per_block(rows_setting) && m.launch.cfg.block_dim.2 == 1
                && m.launch.cfg.shared_mem_bytes == 0
            &&& !m.coop && rows <= u32::MAX ==> m.launch.cfg.grid_dim.0 * m.launch.cfg.block_dim.1
                >= rows && m.launch.cfg.grid_dim.0 * m.launch.cfg.block_dim.1 < rows
                + m.launch.cfg.block_dim.1
        },
        r is Ok <==> {
            &&& rows != 0 && hidden != 0 && hidden % 256 == 0
            &&& dev_len == rows * ((hidden / 256) * 144)
            &&& x.n_blocks * 32 == hidden && y_len == rows
        },
{
    if q4k_mmvq_use_coop(coop_setting, rows, hidden) {
        return matvec_device_into_with_dev_coop(dev_len, x, y_len, rows, hidden);
    }
    let per_block: u32 = choose_rows_per_block(rows_setting);
    matvec_device_into_with_dev_tiled(dev_len, x, y_len, rows, hidden, per_block)
}

/// The complaint about the bytes of the input row.
pub open spec fn input_bytes_text(bytes_len: usize, expected: int) -> Seq<char> {
    "q8_1 byte length mismatch: bytes="@ + dec(bytes_len as nat) + " expected="@ + dec(
        expected as nat,
    )
}

/// The first thing wrong with a matvec whose weight is still with the host. The
/// cooperative kernel is handed the weight as it lies on the device; for the tiled one
/// the bytes of the input row are checked too.
pub open spec fn into_complaint(
    use_coop: bool,
    data_len: usize,
    x: PackedRow,
    y_len: usize,
    rows: usize,
    hidden: usize,
) -> Option<Seq<char>> {
    if use_coop {
        mmvq_complaint("q4k"@, q4k(), true, data_len, x, y_len, rows, hidden)
    } else if rows == 0 || hidden == 0 || hidden % Q4K_BLOCK_ELEMS != 0 {
        Some(mmvq_shape_text("q4k"@, rows, hidden))
    } else if q4k().matrix_bytes(rows, hidden) > usize::MAX {
        Some(overflow_text("q4k"@))
    } else if data_len != q4k().matrix_bytes(rows, hidden) {
        Some(length_text("q4k"@, data_len, q4k().matrix_bytes(rows, hidden)))
    } else if !x.holds(hidden) {
        Some(input_blocks_text(x.n_blocks, hidden))
    } else if x.bytes_len != x.n_blocks * 36 {
        Some(input_bytes_text(x.bytes_len, x.n_blocks * 36))
    } else if y_len != rows {
        Some(output_text("q4k"@, y_len, rows))
    } else {
        None
    }
}

/// Checks a matvec with a weight that may still have to be brought to the device, by the
/// kernel that suits it.
pub fn matvec_device_into(
    coop_setting: Option<&str>,
    rows_setting: Option<&str>,
    data_len: usize,
    x: &PackedRow,
    y_len: usize,
    rows: usize,
    hidden: usize,
) -> (r: Result<Q4kMmvq, CudaInitError>)
    requires
        x.n_blocks * 36 <= usize::MAX,
    ensures
        r is Ok == into_complaint(
            coop(coop_setting, rows, hidden),
            data_len,
            *x,
            y_len,
            rows,
            hidden,
        ) is None,
        r matches Ok(m) ==> m == if coop(coop_setting, rows, hidden) {
            Q4kMmvq { coop: true, launch: coop_launch(rows, hidden / Q4K_BLOCK_ELEMS) }
        } else {
            Q4kMmvq {
                coop: false,
                launch: tiled_launch(
                    rows,
                    hidden / Q4K_BLOCK_ELEMS,
                    rows_per_block(rows_setting) as u32,
                ),
            }
        },
        r matches Err(e) ==> into_complaint(
            coop(coop_setting, rows, hidden),
            data_len,
            *x,
            y_len,
            rows,
            hidden,
        ) matches Some(t) && e.says(t),
        r matches Ok(m) ==> {
            &&& m.coop == coop(coop_setting, rows, hidden)
            &&& m.launch.rows == rows as i32 && m.launch.n_super_blocks == (hidden / 256) as i32
            &&& m.launch.cfg.grid_dim.1 == 1 && m.launch.cfg.grid_dim.2 == 1
            &&& m.coop ==> m.launch.cfg.grid_dim.0 == rows as u32 && m.launch.cfg.block_dim == (
                32u32,
                4u32,
                1u32,
            ) && m.launch.cfg.shared_mem_bytes == 16
            &&& !m.coop ==> m.launch.cfg.block_dim.0 == 32 && m.launch.cfg.block_dim.1
                == rows_per_block(rows_setting) && m.launch.cfg.block_dim.2 == 1
                && m.launch.cfg.shared_mem_bytes == 0
            &&& !m.coop && rows <= u32::MAX ==> m.launch.cfg.grid_dim.0 * m.launch.cfg.block_dim.1
                >= rows && m.launch.cfg.grid_dim.0 * m.launch.cfg.block_dim.1 < rows
                + m.launch.cfg.block_dim.1
        },
        r is Ok <==> {
            &&& rows != 0 && hidden != 0 && hidden % 256 == 0
            &&& data_len == rows * ((hidden / 256) * 144)
            &&& x.n_blocks * 32 == hidden && y_len == rows
            &&& coop(coop_setting, rows, hidden) || x.bytes_len == x.n_blocks * 36
        },
{
    proof {
        crate::packed::lemma_bytes_by_row(q4k(), rows, hidden);
    }
    if q4k_mmvq_use_coop(coop_setting, rows, hidden) {
        return matvec_device_into_with_dev_coop(data_len, x, y_len, rows, hidden);
    }
    if rows == 0 || hidden == 0 || hidden % Q4K_BLOCK_ELEMS != 0 {
        return Err(mmvq_shape_error("q4k", rows, hidden));
    }
    let f = BlockFormat { elems: Q4K_BLOCK_ELEMS, bytes: Q4K_BLOCK_BYTES };
    let expected: usize = match f.bytes_of(rows, hidden) {
        Some(n) => n,
        None => return Err(overflow_error("q4k")),
    };
    if data_len != expected {
        return Err(length_error("q4k", data_len, expected));
    }
    if !x.holds_elems(hidden) {
        return Err(input_blocks_error(x.n_blocks, hidden));
    }
    if x.bytes_len != x.n_blocks * 36 {
        let mut s: String = "q8_1 byte length mismatch: bytes=".to_owned();
        push_dec(&mut s, x.bytes_len as u64);
        s.append(" expected=");
        push_dec(&mut s, (x.n_blocks * 36) as u64);
        return Err(CudaInitError::DriverMissing(s));
    }
    if y_len != rows {
        return Err(output_error("q4k", y_len, rows));
    }
    let per_block: u32 = choose_rows_per_block(rows_setting);
    Ok(
        Q4kMmvq {
            coop: false,
            launch: make_tiled_launch(rows, hidden / Q4K_BLOCK_ELEMS, per_block),
        },
    )
}

/// The cooperative kernel takes over where the setting says so. Without a word from it, rows of
/// 4096 elements or more and matrices of 1024 rows or fewer go to it, and nothing else does.
pub proof fn law_coop_choice(rows: usize, hidden: usize)
    ensures
        coop(None, rows, hidden) <==> hidden >= 16 * 256 || rows <= 1024,
        coop(Some("1"), rows, hidden),
        !coop(Some("0"), rows, hidden),
{
    reveal_strlit("1");
    reveal_strlit("0");
    assert("1"@[0] != "0"@[0]);
}

/// A setting is asked only for the numbers of rows that the kernel takes; anything else, and no
/// setting, gives four.
pub proof fn law_rows_per_block(setting: &str, n: nat)
    requires
        unsigned_text(setting@) == Some(n),
    ensures
        n == 1 || n == 2 || n == 4 || n == 8 || n == 16 ==> rows_per_block(Some(setting)) == n,
        !(n == 1 || n == 2 || n == 4 || n == 8 || n == 16) ==> rows_per_block(Some(setting)) == 4,
        rows_per_block(None) == 4,
{
}

/// The launch of the cooperative kernel has a block for each row, below the kernel's bound, four
/// warps in each, and a slot of shared memory for each warp.
pub proof fn law_coop_launch_covers_rows(rows: usize, n_super_blocks: usize, row: int)
    requires
        rows <= i32::MAX,
        n_super_blocks <= i32::MAX,
        0 <= row < rows,
    ensures
        ({
            let l = coop_launch(rows, n_super_blocks);
            &&& l.rows == rows && row < l.rows
            &&& row < l.cfg.grid_dim.0 && l.cfg.grid_dim == (rows as u32, 1u32, 1u32)
            &&& l.n_super_blocks == n_super_blocks
            &&& l.cfg.block_dim == (32u32, 4u32, 1u32)
            &&& l.cfg.shared_mem_bytes == 4 * l.cfg.block_dim.1
        }),
{
}

/// The two kernels differ in how threads are laid out and in nothing that is handed to them.
pub proof fn law_kernels_get_the_same(rows: usize, n_super_blocks: usize, rows_per_block: u32)
    ensures
        coop_launch(rows, n_super_blocks).rows == tiled_launch(
            rows,
            n_super_blocks,
            rows_per_block,
        ).rows,
        coop_launch(rows, n_super_blocks).n_super_blocks == tiled_launch(
            rows,
            n_super_blocks,
            rows_per_block,
        ).n_super_blocks,
{
}

/// A weight that is still with the host is accepted just where one on the device would be; the
/// tiled kernel asks besides for 36 bytes of input for each of its blocks.
pub proof fn law_host_weight_is_accepted_alike(
    data_len: usize,
    x: PackedRow,
    y_len: usize,
    rows: usize,
    hidden: usize,
    rows_per_block: u32,
)
    requires
        rows_per_block > 0,
    ensures
        into_complaint(true, data_len, x, y_len, rows, hidden) == mmvq_complaint(
            "q4k"@,
            q4k(),
            true,
            data_len,
            x,
            y_len,
            rows,
            hidden,
        ),
        tiled_complaint(data_len, x, y_len, rows, hidden, rows_per_block) == mmvq_complaint(
            "q4k"@,
            q4k(),
            true,
            data_len,
            x,
            y_len,
            rows,
            hidden,
        ),
        into_complaint(false, data_len, x, y_len, rows, hidden) is None <==> mmvq_complaint(
            "q4k"@,
            q4k(),
            false,
            data_len,
            x,
            y_len,
            rows,
            hidden,
        ) is None && x.bytes_len == 36 * x.n_blocks,
        into_complaint(false, data_len, x, y_len, rows, hidden) == Some(
            input_bytes_text(x.bytes_len, 36 * x.n_blocks),
        ) || x.bytes_len == 36 * x.n_blocks || mmvq_complaint(
            "q4k"@,
            q4k(),
            false,
            data_len,
            x,
            rows,
            rows,
            hidden,
        ) is Some,
{
}

/// The tiled kernel refuses to take no rows at all, once the shape is right and before anything
/// else is looked at.
pub proof fn law_no_rows_per_block(
    dev_len: usize,
    x: PackedRow,
    y_len: usize,
    rows: usize,
    hidden: usize,
)
    ensures
        rows > 0 && hidden > 0 && hidden % 256 == 0 ==> tiled_complaint(
            dev_len,
            x,
            y_len,
            rows,
            hidden,
            0,
        ) == Some("q4k_mmvq rows_per_block must be > 0"@),
        !(rows > 0 && hidden > 0 && hidden % 256 == 0) ==> tiled_complaint(
            dev_len,
            x,
            y_len,
            rows,
            hidden,
            0,
        ) == Some(
            "invalid q4k_mmvq shape rows="@ + dec(rows as nat) + " hidden="@ + dec(hidden as nat),
        ),
        input_bytes_text(x.bytes_len, 36 * x.n_blocks) == "q8_1 byte length mismatch: bytes="@ + dec(
            x.bytes_len as nat,
        ) + " expected="@ + dec((36 * x.n_blocks) as nat),
{
    reveal_strlit("q4k");
    reveal_strlit("invalid ");
    reveal_strlit("_mmvq shape rows=");
    reveal_strlit("invalid q4k_mmvq shape rows=");
    assert("invalid "@ + "q4k"@ + "_mmvq shape rows="@ =~= "invalid q4k_mmvq shape rows="@);
}

/// A known target is kept and everything else gives the oldest: the choice is always a known
/// one, and choosing it again changes nothing.
pub proof fn law_known_targets(name: Seq<char>)
    ensures
        known_arch("compute_61"@),
        known_arch(name) <==> (name == "compute_61"@ || name == "compute_70"@ || name
            == "compute_75"@ || name == "compute_80"@ || name == "compute_86"@ || name
            == "compute_89"@),
{
}

} // verus!
