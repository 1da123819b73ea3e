//! Bringing up the driver, and what it says when something fails.

use vstd::prelude::*;

use crate::error::CudaInitError;
use crate::text::{dec, push_dec};

verus! {

/// Worker streams that the driver tries to make.
pub const MOE_WORKER_STREAM_COUNT: usize = 8;

/// A driver that is up: its device, and its worker streams.
#[derive(Clone, Copy, Debug, PartialEq, Eq, Structural)]
pub struct Driver {
    pub ordinal: usize,
    pub worker_streams: usize,
}

/// What is to be done next to bring a driver up.
#[derive(Clone, Copy, Debug, PartialEq, Eq, Structural)]
pub enum DriverPhase {
    /// Make the context, and switch its event tracking off.
    Context,
    /// Make the main stream.
    Stream,
    /// Make the BLAS handle.
    Blas,
    /// Make one more worker stream.
    Worker { made: usize },
    /// Make the directory of the kernel cache. A failure changes nothing.
    CacheDir { streams: usize },
    Ready(Driver),
}

/// A driver that is being brought up.
#[derive(Clone, Copy, Debug, PartialEq, Eq, Structural)]
pub struct DriverInit {
    pub ordinal: usize,
    pub phase: DriverPhase,
}

/// The phase that follows one that went well or, where that does no harm, did not; `None`
/// where the driver cannot be brought up.
pub open spec fn driver_next(ordinal: usize, phase: DriverPhase, ok: bool) -> Option<DriverPhase> {
    match phase {
        DriverPhase::Context => if ok {
            Some(DriverPhase::Stream)
        } else {
            None
        },
        DriverPhase::Stream => if ok {
            Some(DriverPhase::Blas)
        } else {
            None
        },
        DriverPhase::Blas => if ok {
            Some(DriverPhase::Worker { made: 0 })
        } else {
            None
        },
        DriverPhase::Worker { made } => if !ok {
            Some(DriverPhase::CacheDir { streams: 0 })
        } else if made + 1 < 8 {
            Some(DriverPhase::Worker { made: (made + 1) as usize })
        } else {
            Some(DriverPhase::CacheDir { streams: 8 })
        },
        DriverPhase::CacheDir { streams } => Some(
            DriverPhase::Ready(Driver { ordinal, worker_streams: streams }),
        ),
        DriverPhase::Ready(d) => Some(DriverPhase::Ready(d)),
    }
}

/// What stands in front of the detail when a phase fails for good.
pub open spec fn phase_prefix(phase: DriverPhase) -> Seq<char> {
    match phase {
        DriverPhase::Stream => "new_stream: "@,
        DriverPhase::Blas => "cuBLAS init: "@,
        _ => ""@,
    }
}

fn prefixed(prefix: &str, detail: &str) -> (e: CudaInitError)
    ensures
        e.says(prefix@ + detail@),
{
    let mut s: String = prefix.to_owned();
    s.append(detail);
    CudaInitError::DriverMissing(s)
}

impl Driver {
    /// Starts to bring the driver up on device 0.
    pub fn new() -> (i: DriverInit)
        ensures
            i == (DriverInit { ordinal: 0, phase: DriverPhase::Context }),
    {
        Driver::new_with_index(0)
    }

    /// Starts to bring the driver up on a device.
    pub fn new_with_index(ordinal: usize) -> (i: DriverInit)
        ensures
            i == (DriverInit { ordinal, phase: DriverPhase::Context }),
    {
        DriverInit { ordinal, phase: DriverPhase::Context }
    }

    /// A line about the device.
    pub fn device_info(&self) -> (s: String)
        ensures
            s@ == "cuda(device="@ + dec(self.ordinal as nat) + ", cublas=ready)"@,
    {
        let mut s: String = "cuda(device=".to_owned();
        push_dec(&mut s, self.ordinal as u64);
        s.append(", cublas=ready)");
        s
    }
}

impl DriverInit {
    /// Takes how the phase went, with what was said where it failed.
    pub fn advance(&mut self, failure: Option<&str>) -> (r: Result<(), CudaInitError>)
        requires
            old(self).phase matches DriverPhase::Worker { made } ==> made < 8,
        ensures
            final(self).ordinal == old(self).ordinal,
            match driver_next(old(self).ordinal, old(self).phase, failure is None) {
                Some(p) => r is Ok && final(self).phase == p,
                None => {
                    &&& final(self).phase == old(self).phase
                    &&& r matches Err(e) && e.says(phase_prefix(old(self).phase) + failure->0@)
                },
            },
            final(self).phase matches DriverPhase::Worker { made } ==> made < 8,
            r is Err <==> failure is Some && (old(self).phase is Context || old(self).phase is Stream
                || old(self).phase is Blas),
            r matches Err(e) ==> {
                &&& old(self).phase is Context ==> e.says(""@ + failure->0@)
                &&& old(self).phase is Stream ==> e.says("new_stream: "@ + failure->0@)
                &&& old(self).phase is Blas ==> e.says("cuBLAS init: "@ + failure->0@)
            },
            old(self).phase is Worker && failure is Some ==> final(self).phase
                == (DriverPhase::CacheDir { streams: 0 }),
    {
        match self.phase {
            DriverPhase::Context => {
                if let Some(d) = failure {
                    return Err(prefixed("", d));
                }
                self.phase = DriverPhase::Stream;
            },
            DriverPhase::Stream => {
                if let Some(d) = failure {
                    return Err(prefixed("new_stream: ", d));
                }
                self.phase = DriverPhase::Blas;
            },
            DriverPhase::Blas => {
                if let Some(d) = failure {
                    return Err(prefixed("cuBLAS init: ", d));
                }
                self.phase = DriverPhase::Worker { made: 0 };
            },
            DriverPhase::Worker { made } => {
                if failure.is_some() {
                    self.phase = DriverPhase::CacheDir { streams: 0 };
                } else if made + 1 < MOE_WORKER_STREAM_COUNT {
                    self.phase = DriverPhase::Worker { made: made + 1 };
                } else {
                    self.phase = DriverPhase::CacheDir { streams: MOE_WORKER_STREAM_COUNT };
                }
            },
            DriverPhase::CacheDir { streams } => {
                self.phase =
                DriverPhase::Ready(Driver { ordinal: self.ordinal, worker_streams: streams });
            },
            DriverPhase::Ready(_) => {},
        }
        Ok(())
    }
}

/// Where a driver stands after a run of phases, given how each of them went.
pub open spec fn driver_run(ordinal: usize, phase: DriverPhase, oks: Seq<bool>) -> Option<DriverPhase>
    decreases oks.len(),
{
    if oks.len() == 0 {
        Some(phase)
    } else {
        match driver_run(ordinal, phase, oks.drop_last()) {
            Some(p) => driver_next(ordinal, p, oks.last()),
            None => None,
        }
    }
}

/// A driver has all its worker streams or none.
pub open spec fn all_or_none(phase: DriverPhase) -> bool {
    match phase {
        DriverPhase::Worker { made } => made < 8,
        DriverPhase::CacheDir { streams } => streams == 0 || streams == 8,
        DriverPhase::Ready(d) => d.worker_streams == 0 || d.worker_streams == 8,
        _ => true,
    }
}

/// Once context, stream and BLAS handle are there, nothing keeps the driver from coming
/// up; and however it comes up, it has all its worker streams or none, on its device.
pub proof fn law_driver_comes_up(ordinal: usize, oks: Seq<bool>)
    ensures
        driver_run(ordinal, DriverPhase::Context, oks) matches Some(p) ==> all_or_none(p) && (
        p matches DriverPhase::Ready(d) ==> d.ordinal == ordinal),
        oks.len() >= 3 && oks[0] && oks[1] && oks[2] ==> (driver_run(
            ordinal,
            DriverPhase::Context,
            oks,
        ) matches Some(p) && !(p is Context || p is Stream || p is Blas)),
    decreases oks.len(),
{
    if oks.len() > 0 {
        let fewer = oks.drop_last();
        law_driver_comes_up(ordinal, fewer);
        if oks.len() == 3 && oks[0] && oks[1] && oks[2] {
            reveal_with_fuel(driver_run, 4);
            assert(fewer.drop_last().drop_last().len() == 0);
            assert(fewer.last() == oks[1]);
            assert(fewer.drop_last().last() == oks[0]);
        }
        if oks.len() > 3 {
            assert(fewer[0] == oks[0] && fewer[1] == oks[1] && fewer[2] == oks[2]);
        }
    }
}

/// Calls of the driver that can fail.
#[derive(Clone, Copy, Debug, PartialEq, Eq, Structural)]
pub enum DriverCall {
    Sync,
    DeviceAlloc,
    DeviceAllocUninit,
    DeviceBufFrom,
    DeviceU8BufFrom,
    ToHost,
    DeviceAllocI32,
    DeviceI32BufFrom,
    ToHostI32,
    DeviceU32BufFrom,
}

impl DriverCall {
    pub open spec fn prefix(self) -> Seq<char> {
        match self {
            DriverCall::Sync => "stream sync: "@,
            DriverCall::DeviceAlloc => "device alloc: "@,
            DriverCall::DeviceAllocUninit => "device alloc uninit: "@,
            DriverCall::DeviceBufFrom => "htod copy: "@,
            DriverCall::DeviceU8BufFrom => "htod u8 copy: "@,
            DriverCall::ToHost => "dtoh copy: "@,
            DriverCall::DeviceAllocI32 => "device alloc i32: "@,
            DriverCall::DeviceI32BufFrom => "htod i32 copy: "@,
            DriverCall::ToHostI32 => "dtoh i32 copy: "@,
            DriverCall::DeviceU32BufFrom => "htod u32 copy: "@,
        }
    }

    /// The error of a call that failed.
    pub fn error(&self, detail: &str) -> (e: CudaInitError)
        ensures
            e.says(self.prefix() + detail@),
            *self == DriverCall::Sync ==> e.says("stream sync: "@ + detail@),
            *self == DriverCall::DeviceAlloc ==> e.says("device alloc: "@ + detail@),
            *self == DriverCall::DeviceAllocUninit ==> e.says("device alloc uninit: "@ + detail@),
            *self == DriverCall::DeviceBufFrom ==> e.says("htod copy: "@ + detail@),
            *self == DriverCall::DeviceU8BufFrom ==> e.says("htod u8 copy: "@ + detail@),
            *self == DriverCall::ToHost ==> e.says("dtoh copy: "@ + detail@),
            *self == DriverCall::DeviceAllocI32 ==> e.says("device alloc i32: "@ + detail@),
            *self == DriverCall::DeviceI32BufFrom ==> e.says("htod i32 copy: "@ + detail@),
            *self == DriverCall::ToHostI32 ==> e.says("dtoh i32 copy: "@ + detail@),
            *self == DriverCall::DeviceU32BufFrom ==> e.says("htod u32 copy: "@ + detail@),
    {
        let p: &str = match self {
            DriverCall::Sync => "stream sync: ",
            DriverCall::DeviceAlloc => "device alloc: ",
            DriverCall::DeviceAllocUninit => "device alloc uninit: ",
            DriverCall::DeviceBufFrom => "htod copy: ",
            DriverCall::DeviceU8BufFrom => "htod u8 copy: ",
            DriverCall::ToHost => "dtoh copy: ",
            DriverCall::DeviceAllocI32 => "device alloc i32: ",
            DriverCall::DeviceI32BufFrom => "htod i32 copy: ",
            DriverCall::ToHostI32 => "dtoh i32 copy: ",
            DriverCall::DeviceU32BufFrom => "htod u32 copy: ",
        };
        prefixed(p, detail)
    }
}

/// The parts of a driver are made one after the other: context, main stream, BLAS handle, eight
/// worker streams, kernel cache. Only a failure of the first three keeps it from coming up.
pub proof fn law_driver_order(ordinal: usize, ok: bool, made: usize, streams: usize, d: Driver)
    requires
        made < 8,
    ensures
        driver_next(ordinal, DriverPhase::Context, true) == Some(DriverPhase::Stream),
        driver_next(ordinal, DriverPhase::Stream, true) == Some(DriverPhase::Blas),
        driver_next(ordinal, DriverPhase::Blas, true) == Some(DriverPhase::Worker { made: 0 }),
        driver_next(ordinal, DriverPhase::Context, false) is None,
        driver_next(ordinal, DriverPhase::Stream, false) is None,
        driver_next(ordinal, DriverPhase::Blas, false) is None,
        driver_next(ordinal, DriverPhase::Worker { made }, true) == Some(
            if made == 7 {
                DriverPhase::CacheDir { streams: 8 }
            } else {
                DriverPhase::Worker { made: (made + 1) as usize }
            },
        ),
        driver_next(ordinal, DriverPhase::Worker { made }, false) == Some(
            DriverPhase::CacheDir { streams: 0 },
        ),
        driver_next(ordinal, DriverPhase::CacheDir { streams }, ok) == Some(
            DriverPhase::Ready(Driver { ordinal, worker_streams: streams }),
        ),
        driver_next(ordinal, DriverPhase::Ready(d), ok) == Some(DriverPhase::Ready(d)),
        MOE_WORKER_STREAM_COUNT == 8,
{
}

proof fn lemma_workers(ordinal: usize, oks: Seq<bool>)
    requires
        3 <= oks.len() <= 11,
        forall|i: int| 0 <= i < oks.len() ==> #[trigger] oks[i],
    ensures
        driver_run(ordinal, DriverPhase::Context, oks) == Some(
            if oks.len() == 11 {
                DriverPhase::CacheDir { streams: 8 }
            } else {
                DriverPhase::Worker { made: (oks.len() - 3) as usize }
            },
        ),
    decreases oks.len(),
{
    let b = oks.drop_last();
    assert(forall|i: int| 0 <= i < b.len() ==> #[trigger] b[i] == oks[i]);
    assert(oks.last() == oks[oks.len() - 1]);
    if oks.len() > 3 {
        lemma_workers(ordinal, b);
    } else {
        let c = b.drop_last();
        let d = c.drop_last();
        assert(d.len() == 0);
        assert(d =~= Seq::<bool>::empty());
        assert(c.last() == oks[0] && b.last() == oks[1]);
        assert(driver_run(ordinal, DriverPhase::Context, d) == Some(DriverPhase::Context));
        assert(driver_run(ordinal, DriverPhase::Context, c) == Some(DriverPhase::Stream));
        assert(driver_run(ordinal, DriverPhase::Context, b) == Some(DriverPhase::Blas));
    }
}

/// Where all goes well, the twelfth phase leaves a driver that is up, on its device and with
/// eight worker streams; the last phase may as well have failed.
pub proof fn law_driver_is_up_after_twelve(ordinal: usize, oks: Seq<bool>)
    requires
        oks.len() == 12,
        forall|i: int| 0 <= i < 11 ==> #[trigger] oks[i],
    ensures
        driver_run(ordinal, DriverPhase::Context, oks) == Some(
            DriverPhase::Ready(Driver { ordinal, worker_streams: 8 }),
        ),
{
    let b = oks.drop_last();
    assert(forall|i: int| 0 <= i < b.len() ==> #[trigger] b[i] == oks[i]);
    lemma_workers(ordinal, b);
}

} // verus!
