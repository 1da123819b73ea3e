//! Settings that the environment can change.
//!
//! Each function takes the value of one variable, `None` where it is not set.

use vstd::prelude::*;

use crate::text::{at_most, parse_usize, unsigned_text};

verus! {

/// `true` if the value is the text `text`.
pub open spec fn set_to(value: Option<&str>, text: Seq<char>) -> bool {
    value matches Some(v) && v@ == text
}

fn is_char(value: Option<&str>, c: char) -> (r: bool)
    ensures
        r == set_to(value, seq![c]),
{
    match value {
        Some(v) => {
            let r = v.unicode_len() == 1 && v.get_char(0) == c;
            assert(r ==> v@ =~= seq![c]);
            r
        },
        None => false,
    }
}

/// A switch that is on unless the value is `0`.
pub fn on_unless_zero(value: Option<&str>) -> (r: bool)
    ensures
        r == !set_to(value, "0"@),
        r <==> value is None || value->0@ != "0"@,
{
    proof {
        reveal_strlit("0");
        assert("0"@ =~= seq!['0']);
    }
    !is_char(value, '0')
}

/// A switch that is off unless the value is `1`.
pub fn off_unless_one(value: Option<&str>) -> (r: bool)
    ensures
        r == set_to(value, "1"@),
        r <==> value is Some && value->0@ == "1"@,
{
    proof {
        reveal_strlit("1");
        assert("1"@ =~= seq!['1']);
    }
    is_char(value, '1')
}

/// The number that a variable holds, or `default`.
pub open spec fn number_or(value: Option<&str>, default: usize) -> nat {
    match value {
        Some(v) => match at_most(unsigned_text(v@), usize::MAX as nat) {
            Some(n) => n,
            None => default as nat,
        },
        None => default as nat,
    }
}

/// The number that a variable holds, or `default` where it holds none.
pub fn number_setting(value: Option<&str>, default: usize) -> (n: usize)
    ensures
        n == number_or(value, default),
        value is None ==> n == default,
        value is Some && unsigned_text(value->0@) is None ==> n == default,
        value is Some && unsigned_text(value->0@) is Some && unsigned_text(value->0@)->0 <= usize::MAX
            ==> n == unsigned_text(value->0@)->0,
        value is Some && unsigned_text(value->0@) is Some && unsigned_text(value->0@)->0 > usize::MAX
            ==> n == default,
{
    match value {
        Some(v) => match parse_usize(v) {
            Some(n) => n,
            None => default,
        },
        None => default,
    }
}

/// Packed keys and values of the hybrid model: only where the format is set to `iso3`.
pub fn kv_format_is_iso3(value: Option<&str>) -> (r: bool)
    ensures
        r == set_to(value, "iso3"@),
        r <==> value is Some && value->0@ == "iso3"@,
{
    proof {
        reveal_strlit("iso3");
        assert("iso3"@ =~= seq!['i', 's', 'o', '3']);
    }
    match value {
        Some(v) => {
            let r = v.unicode_len() == 4 && v.get_char(0) == 'i' && v.get_char(1) == 's'
                && v.get_char(2) == 'o' && v.get_char(3) == '3';
            assert(r ==> v@ =~= seq!['i', 's', 'o', '3']);
            r
        },
        None => false,
    }
}

/// Packed-input Q4_K projections: on unless switched off.
pub fn q4k_mmvq_enabled(value: Option<&str>) -> (r: bool)
    ensures
        r == !set_to(value, "0"@),
        r <==> value is None || value->0@ != "0"@,
{
    on_unless_zero(value)
}

/// Packed-input Q6_K projections: on unless switched off.
pub fn q6k_mmvq_enabled(value: Option<&str>) -> (r: bool)
    ensures
        r == !set_to(value, "0"@),
        r <==> value is None || value->0@ != "0"@,
{
    on_unless_zero(value)
}

/// Decoding through the host: off unless switched on.
pub fn host_fallback_enabled(value: Option<&str>) -> (r: bool)
    ensures
        r == set_to(value, "1"@),
        r <==> value is Some && value->0@ == "1"@,
{
    off_unless_one(value)
}

/// Timing of the decode sections: off unless switched on.
pub fn decode_profile_enabled(value: Option<&str>) -> (r: bool)
    ensures
        r == set_to(value, "1"@),
        r <==> value is Some && value->0@ == "1"@,
{
    off_unless_one(value)
}

/// Graph capture of the decode pipeline: on unless switched off.
pub fn decode_graph_enabled(value: Option<&str>) -> (r: bool)
    ensures
        r == !set_to(value, "0"@),
        r <==> value is None || value->0@ != "0"@,
{
    on_unless_zero(value)
}

/// Half-precision prefill projections: off unless switched on.
pub fn prefill_tensor_cores_enabled(value: Option<&str>) -> (r: bool)
    ensures
        r == set_to(value, "1"@),
        r <==> value is Some && value->0@ == "1"@,
{
    off_unless_one(value)
}

/// The switches that the planner reads.
#[derive(Clone, Copy, Debug, PartialEq, Eq, Structural)]
pub struct DecodeFlags {
    pub q4k_mmvq: bool,
    pub q6k_mmvq: bool,
    pub tensor_cores: bool,
    pub host_fallback: bool,
    pub decode_graph: bool,
    pub prefill_host_fallback: bool,
    pub prefill_batched_attn: bool,
    pub spec_batched: bool,
    pub spec_batched_min_n: usize,
    pub spec_scratch: bool,
    pub spec_graph: bool,
}

/// Run length from which a speculative run is worth a batched pass, unless the
/// environment says otherwise.
pub const SPEC_BATCHED_MIN_N: usize = 4;

/// What the environment says of the planner's switches.
#[derive(Clone, Copy, Debug)]
pub struct DecodeSettings<'a> {
    pub q4k_mmvq: Option<&'a str>,
    pub q6k_mmvq: Option<&'a str>,
    pub prefill_tensor_cores: Option<&'a str>,
    pub decode_host_fallback: Option<&'a str>,
    pub decode_graph: Option<&'a str>,
    pub prefill_host_fallback: Option<&'a str>,
    pub prefill_batched_attn: Option<&'a str>,
    pub spec_batched: Option<&'a str>,
    pub spec_batched_min_n: Option<&'a str>,
    pub spec_scratch: Option<&'a str>,
    pub spec_graph: Option<&'a str>,
}

impl DecodeFlags {
    /// The switches under the given settings: the packed kernels, the captured graphs, the
    /// batched passes and the scratch buffers are on unless set to `0`, the tensor cores
    /// and the host's own paths off unless set to `1`.
    pub fn from_settings(s: &DecodeSettings) -> (f: DecodeFlags)
        ensures
            f.q4k_mmvq == !set_to(s.q4k_mmvq, "0"@),
            f.q6k_mmvq == !set_to(s.q6k_mmvq, "0"@),
            f.tensor_cores == set_to(s.prefill_tensor_cores, "1"@),
            f.host_fallback == set_to(s.decode_host_fallback, "1"@),
            f.decode_graph == !set_to(s.decode_graph, "0"@),
            f.prefill_host_fallback == set_to(s.prefill_host_fallback, "1"@),
            f.prefill_batched_attn == !set_to(s.prefill_batched_attn, "0"@),
            f.spec_batched == !set_to(s.spec_batched, "0"@),
            f.spec_batched_min_n == number_or(s.spec_batched_min_n, SPEC_BATCHED_MIN_N),
            f.spec_scratch == !set_to(s.spec_scratch, "0"@),
            f.spec_graph == !set_to(s.spec_graph, "0"@),
            s.spec_batched_min_n is None ==> f.spec_batched_min_n == 4,
            s.spec_batched_min_n is Some ==> f.spec_batched_min_n == number_or(
                s.spec_batched_min_n,
                4,
            ),
    {
        DecodeFlags {
            q4k_mmvq: q4k_mmvq_enabled(s.q4k_mmvq),
            q6k_mmvq: q6k_mmvq_enabled(s.q6k_mmvq),
            tensor_cores: prefill_tensor_cores_enabled(s.prefill_tensor_cores),
            host_fallback: host_fallback_enabled(s.decode_host_fallback),
            decode_graph: decode_graph_enabled(s.decode_graph),
            prefill_host_fallback: off_unless_one(s.prefill_host_fallback),
            prefill_batched_attn: on_unless_zero(s.prefill_batched_attn),
            spec_batched: on_unless_zero(s.spec_batched),
            spec_batched_min_n: number_setting(s.spec_batched_min_n, SPEC_BATCHED_MIN_N),
            spec_scratch: on_unless_zero(s.spec_scratch),
            spec_graph: on_unless_zero(s.spec_graph),
        }
    }
}

/// Rows from which a matvec is traced, unless the environment says otherwise.
pub const TRACE_MIN_ROWS: usize = 100_000;

/// A variable that holds a number in decimal notation gives that number where it can be held;
/// one that holds none, and one that is not set, give the default.
pub proof fn law_number_setting(value: &str, n: nat, default: usize)
    requires
        value@ == crate::text::dec(n),
    ensures
        n <= usize::MAX ==> number_or(Some(value), default) == n,
        n > usize::MAX ==> number_or(Some(value), default) == default,
        number_or(None, default) == default,
{
    crate::text::law_decimal_reads_back(n);
}

/// A switch has one text that turns it. Texts that differ in anything do not.
pub proof fn law_switch(value: &str, text: Seq<char>)
    ensures
        set_to(Some(value), text) <==> value@ == text,
        !set_to(None, text),
{
}

/// A run of four drafted tokens, and a matvec of a hundred thousand rows, are where the defaults
/// set in.
pub proof fn law_defaults(n: usize)
    ensures
        n >= SPEC_BATCHED_MIN_N <==> n > 3,
        n >= TRACE_MIN_ROWS <==> n > 99_999,
{
}

} // verus!
