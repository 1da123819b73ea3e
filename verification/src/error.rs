//! Errors of backend construction and of device calls.

use vstd::prelude::*;

verus! {

/// Why a backend or one of its calls could not do its work.
#[derive(Debug)]
pub enum CudaInitError {
    /// The driver, a library of the toolkit or a device call failed, or a call was
    /// refused because its arguments do not fit together.
    DriverMissing(String),
    /// The driver loaded, but reports no device.
    NoDevices,
    /// The toolkit that was found is older than what the kernels need.
    ToolkitMismatch { found: String, need: &'static str },
    /// A part of the backend that does not exist yet.
    NotImplemented(&'static str),
}

impl CudaInitError {
    /// The text that `message` returns.
    pub open spec fn text(self) -> Seq<char> {
        match self {
            CudaInitError::DriverMissing(s) => "CUDA driver not reachable: "@ + s@,
            CudaInitError::NoDevices => "CUDA driver loaded but reports no devices"@,
            CudaInitError::ToolkitMismatch { found, need } => "CUDA toolkit mismatch: found "@
                + found@ + ", need "@ + need@ + "+"@,
            CudaInitError::NotImplemented(what) => "CUDA backend stub: "@ + what@
                + " is not yet implemented (see openspec/changes/cuda-and-rotorquant-kv/)"@,
        }
    }

    /// `true` for a `DriverMissing` that carries the text `detail`.
    pub open spec fn says(self, detail: Seq<char>) -> bool {
        self matches CudaInitError::DriverMissing(s) && s@ == detail
    }

    /// The error as a sentence for the user.
    pub fn message(&self) -> (s: String)
        ensures
            s@ == self.text(),
            self matches CudaInitError::DriverMissing(d) ==> s@ == "CUDA driver not reachable: "@ + d@,
            self is NoDevices ==> s@ == "CUDA driver loaded but reports no devices"@,
            self matches CudaInitError::ToolkitMismatch { found, need } ==> s@
                == "CUDA toolkit mismatch: found "@ + found@ + ", need "@ + need@ + "+"@,
            self matches CudaInitError::NotImplemented(what) ==> s@ == "CUDA backend stub: "@ + what@
                + " is not yet implemented (see openspec/changes/cuda-and-rotorquant-kv/)"@,
    {
        match self {
            CudaInitError::DriverMissing(detail) => {
                let mut out: String = "CUDA driver not reachable: ".to_owned();
                out.append(detail.as_str());
                out
            },
            CudaInitError::NoDevices => "CUDA driver loaded but reports no devices".to_owned(),
            CudaInitError::ToolkitMismatch { found, need } => {
                let mut out: String = "CUDA toolkit mismatch: found ".to_owned();
                out.append(found.as_str());
                out.append(", need ");
                out.append(*need);
                out.append("+");
                out
            },
            CudaInitError::NotImplemented(what) => {
                let mut out: String = "CUDA backend stub: ".to_owned();
                out.append(*what);
                out.append(
                    " is not yet implemented (see openspec/changes/cuda-and-rotorquant-kv/)",
                );
                out
            },
        }
    }
}

/// A `DriverMissing` with a fixed text.
pub fn refused(detail: &str) -> (e: CudaInitError)
    ensures
        e.says(detail@),
        e matches CudaInitError::DriverMissing(s) && s@ == detail@,
{
    CudaInitError::DriverMissing(detail.to_owned())
}

/// A refusal tells its detail and nothing else: it says one text only, and its message ends with
/// that text.
pub proof fn law_refusal_tells_its_detail(e: CudaInitError, a: Seq<char>, b: Seq<char>)
    requires
        e.says(a),
    ensures
        e is DriverMissing,
        e.says(b) <==> a == b,
        e.text() == "CUDA driver not reachable: "@ + a,
        e.text().skip(e.text().len() - a.len()) =~= a,
{
}

/// What the user is told of the other errors names what they carry.
pub proof fn law_messages(found: String, need: &'static str)
    ensures
        (CudaInitError::ToolkitMismatch { found, need }).text() == "CUDA toolkit mismatch: found "@
            + found@ + ", need "@ + need@ + "+"@,
        CudaInitError::NotImplemented(need).text() == "CUDA backend stub: "@ + need@
            + " is not yet implemented (see openspec/changes/cuda-and-rotorquant-kv/)"@,
        CudaInitError::NoDevices.text() == "CUDA driver loaded but reports no devices"@,
{
}

} // verus!
