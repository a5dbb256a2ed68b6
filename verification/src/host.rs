use vstd::prelude::*;

verus! {

/// Host-side stand-ins for the JavaScript values that the engine passes
/// around as `externref`.
#[derive(Clone)]
pub enum HostRef {
    Undefined,
    Null,
    Bool(bool),
    /// `globalThis`, an object.
    Global,
    /// `globalThis.crypto`, an object with `getRandomValues`.
    Crypto,
    /// What the `(ptr, len) -> externref` cast made: the live location in
    /// engine memory (for writing) and the text read from it at the time
    /// (for reading).
    Mem { ptr: u32, len: u32, text: String },
}

/// `__wbindgen_is_object`: the global object and `crypto` are objects.
pub fn is_object(r: Option<&HostRef>) -> (b: bool)
    ensures
        b == (r matches Some(h) && (h is Global || h is Crypto)),
{
    match r {
        Some(HostRef::Global) | Some(HostRef::Crypto) => true,
        _ => false,
    }
}

/// `__wbindgen_is_string`: only cast memory is a string.
pub fn is_string(r: Option<&HostRef>) -> (b: bool)
    ensures
        b == (r matches Some(h) && h is Mem),
{
    match r {
        Some(HostRef::Mem { .. }) => true,
        _ => false,
    }
}

/// `__wbindgen_is_undefined`: a missing reference and `undefined` are
/// undefined.
pub fn is_undefined(r: Option<&HostRef>) -> (b: bool)
    ensures
        b == (r is None || (r matches Some(h) && h is Undefined)),
{
    match r {
        None | Some(HostRef::Undefined) => true,
        _ => false,
    }
}

/// The engine-memory range `(ptr, len)` that `getRandomValues` fills, when
/// its argument is a buffer.
pub fn random_target(r: Option<&HostRef>) -> (t: Option<(u32, u32)>)
    ensures
        match r {
            Some(HostRef::Mem { ptr, len, .. }) => t == Some((*ptr, *len)),
            _ => t is None,
        },
{
    match r {
        Some(HostRef::Mem { ptr, len, .. }) => Some((*ptr, *len)),
        _ => None,
    }
}

/// The message of a failed conversion, from the value the engine parked
/// for its error (`None` when the slot held no host value).
pub open spec fn engine_error_text(r: Option<&HostRef>) -> Seq<char> {
    match r {
        Some(HostRef::Mem { text, .. }) => "engine error: "@ + text@,
        _ => "engine error: "@ + "engine rejected the input"@,
    }
}

/// Reports a failed conversion: the engine's own message when its error
/// value is text, a fixed one otherwise.
pub fn engine_error_message(r: Option<&HostRef>) -> (m: String)
    ensures
        m@ == engine_error_text(r),
{
    let mut m = String::from_str("engine error: ");
    match r {
        Some(HostRef::Mem { text, .. }) => m.append(text.as_str()),
        _ => m.append("engine rejected the input"),
    }
    m
}

/// The slot writes that follow growing the externref table by four
/// `undefined` slots at `offset`: `undefined` at slot 0, then `null`,
/// `true` and `false` after `offset`.
pub fn table_init_writes(offset: u64) -> (w: Vec<(u64, HostRef)>)
    requires
        offset <= u64::MAX - 3,
    ensures
        w@.len() == 4,
        w@[0].0 == 0 && w@[0].1 is Undefined,
        w@[1].0 == offset + 1 && w@[1].1 is Null,
        w@[2].0 == offset + 2 && w@[2].1 == HostRef::Bool(true),
        w@[3].0 == offset + 3 && w@[3].1 == HostRef::Bool(false),
{
    let mut w: Vec<(u64, HostRef)> = Vec::new();
    w.push((0, HostRef::Undefined));
    w.push((offset + 1, HostRef::Null));
    w.push((offset + 2, HostRef::Bool(true)));
    w.push((offset + 3, HostRef::Bool(false)));
    w
}

/// What `html_to_pdf` handed back in its four results.
pub enum Conversion {
    /// The PDF lies at `ptr..ptr + len` in engine memory.
    Pdf { ptr: i32, len: i32 },
    /// The engine failed; its error value is parked at this table slot.
    Failed { slot: i32 },
}

/// Reads the `(ptr, len, err_ref, is_err)` results of `html_to_pdf`.
pub fn conversion_outcome(ptr: i32, len: i32, err_slot: i32, is_err: i32) -> (c: Conversion)
    ensures
        is_err != 0 ==> c == (Conversion::Failed { slot: err_slot }),
        is_err == 0 ==> c == (Conversion::Pdf { ptr, len }),
{
    if is_err != 0 {
        Conversion::Failed { slot: err_slot }
    } else {
        Conversion::Pdf { ptr, len }
    }
}

/// The smallest download that is taken for an engine.
pub const MIN_ENGINE_BYTES: usize = 1024;

/// What to do about the cached engine before converting.
pub enum CachePlan {
    /// Use the cached copy as it is, without any size or freshness check.
    UseCached,
    /// Download the engine, first deleting any cached copy if asked to.
    Download { discard_cached: bool },
}

/// Decides between the cached engine and a download: `--upgrade` always
/// drops the cache and downloads; otherwise a cached copy is used as is.
pub fn plan_engine_cache(upgrade: bool, cached: bool) -> (p: CachePlan)
    ensures
        upgrade ==> p == (CachePlan::Download { discard_cached: true }),
        !upgrade && cached ==> p == CachePlan::UseCached,
        !upgrade && !cached ==> p == (CachePlan::Download { discard_cached: false }),
{
    if upgrade {
        CachePlan::Download { discard_cached: true }
    } else if cached {
        CachePlan::UseCached
    } else {
        CachePlan::Download { discard_cached: false }
    }
}

/// Whether a downloaded engine of `len` bytes is large enough to keep.
pub fn engine_download_ok(len: usize) -> (ok: bool)
    ensures
        ok == (len >= MIN_ENGINE_BYTES),
{
    len >= MIN_ENGINE_BYTES
}

} // verus!
