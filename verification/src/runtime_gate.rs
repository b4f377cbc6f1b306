//! The IL2CPP runtime gate: the Unity adapter runs only on x64 Windows, in a
//! process with the IL2CPP runtime and none of Mono, and only when every public
//! IL2CPP export it calls resolves.
use vstd::prelude::*;
use crate::chars::str_eq;

verus! {

pub const IL2CPP_MODULE: &'static str = "GameAssembly.dll";
pub const MONO_MODULE: &'static str = "mono-2.0-bdwgc.dll";
pub const REQUIRED_EXPORT_COUNT: usize = 17;

/// The name of the `i`-th export the Unity adapter requires.
pub open spec fn export_name(i: int) -> &'static str {
    if i == 0 { "il2cpp_domain_get" }
    else if i == 1 { "il2cpp_domain_get_assemblies" }
    else if i == 2 { "il2cpp_assembly_get_image" }
    else if i == 3 { "il2cpp_class_from_name" }
    else if i == 4 { "il2cpp_class_get_field_from_name" }
    else if i == 5 { "il2cpp_field_get_value" }
    else if i == 6 { "il2cpp_unity_liveness_allocate_struct" }
    else if i == 7 { "il2cpp_unity_liveness_calculation_from_statics" }
    else if i == 8 { "il2cpp_unity_liveness_finalize" }
    else if i == 9 { "il2cpp_unity_liveness_free_struct" }
    else if i == 10 { "il2cpp_stop_gc_world" }
    else if i == 11 { "il2cpp_start_gc_world" }
    else if i == 12 { "il2cpp_string_chars" }
    else if i == 13 { "il2cpp_string_length" }
    else if i == 14 { "il2cpp_thread_current" }
    else if i == 15 { "il2cpp_thread_attach" }
    else { "il2cpp_thread_detach" }
}

/// The name of the `i`-th required export, in the order they are resolved.
pub fn required_export_name(i: usize) -> (r: Option<&'static str>)
    ensures
        match r {
            Some(n) => i < REQUIRED_EXPORT_COUNT && n == export_name(i as int),
            None => i >= REQUIRED_EXPORT_COUNT,
        },
{
    if i == 0 { Some("il2cpp_domain_get") }
    else if i == 1 { Some("il2cpp_domain_get_assemblies") }
    else if i == 2 { Some("il2cpp_assembly_get_image") }
    else if i == 3 { Some("il2cpp_class_from_name") }
    else if i == 4 { Some("il2cpp_class_get_field_from_name") }
    else if i == 5 { Some("il2cpp_field_get_value") }
    else if i == 6 { Some("il2cpp_unity_liveness_allocate_struct") }
    else if i == 7 { Some("il2cpp_unity_liveness_calculation_from_statics") }
    else if i == 8 { Some("il2cpp_unity_liveness_finalize") }
    else if i == 9 { Some("il2cpp_unity_liveness_free_struct") }
    else if i == 10 { Some("il2cpp_stop_gc_world") }
    else if i == 11 { Some("il2cpp_start_gc_world") }
    else if i == 12 { Some("il2cpp_string_chars") }
    else if i == 13 { Some("il2cpp_string_length") }
    else if i == 14 { Some("il2cpp_thread_current") }
    else if i == 15 { Some("il2cpp_thread_attach") }
    else if i == 16 { Some("il2cpp_thread_detach") }
    else { None }
}

#[derive(Clone, Copy, Debug, PartialEq, Eq, Structural)]
pub enum HostPlatform {
    WindowsX64,
    WindowsOther,
    Other,
}

/// What the current process shows of its runtime: the platform, which runtime
/// modules are loaded, and the address of each required export (by index) in the
/// IL2CPP module, where one resolved.
#[derive(Clone, Debug, PartialEq, Eq)]
pub struct ObservedRuntime {
    pub platform: HostPlatform,
    pub mono_loaded: bool,
    pub il2cpp_loaded: bool,
    pub export_addresses: Vec<Option<usize>>,
}

#[derive(Clone, Copy, Debug, PartialEq, Eq)]
pub enum RuntimeGateError {
    UnsupportedPlatform,
    UnsupportedArchitecture,
    MonoBackend,
    Il2CppRuntimeUnavailable,
    MissingExport(&'static str),
}

/// Why a runtime is refused.
pub enum GateRefusal {
    Platform,
    Architecture,
    Mono,
    Unavailable,
    Missing(int),
}

/// The address resolved for export `i`, if any.
pub open spec fn export_at(exports: Seq<Option<usize>>, i: int) -> Option<usize> {
    if 0 <= i < exports.len() { exports[i] } else { None }
}

/// The first required export that did not resolve, at or after `i`; the count when all did.
pub open spec fn first_missing_from(exports: Seq<Option<usize>>, i: int) -> int
    decreases REQUIRED_EXPORT_COUNT - i,
{
    if i < 0 || i >= REQUIRED_EXPORT_COUNT {
        REQUIRED_EXPORT_COUNT as int
    } else if export_at(exports, i) is None {
        i
    } else {
        first_missing_from(exports, i + 1)
    }
}

pub open spec fn first_missing(exports: Seq<Option<usize>>) -> int {
    first_missing_from(exports, 0)
}

/// The verdict on an observed runtime; `None` accepts it.
pub open spec fn refusal(platform: HostPlatform, mono: bool, il2cpp: bool, exports: Seq<Option<usize>>) -> Option<GateRefusal> {
    match platform {
        HostPlatform::WindowsOther => Some(GateRefusal::Architecture),
        HostPlatform::Other => Some(GateRefusal::Platform),
        HostPlatform::WindowsX64 => if mono {
            Some(GateRefusal::Mono)
        } else if !il2cpp {
            Some(GateRefusal::Unavailable)
        } else if first_missing(exports) < REQUIRED_EXPORT_COUNT {
            Some(GateRefusal::Missing(first_missing(exports)))
        } else {
            None
        },
    }
}

/// The error value that reports a refusal.
pub open spec fn reports(e: RuntimeGateError, k: GateRefusal) -> bool {
    match k {
        GateRefusal::Platform => e == RuntimeGateError::UnsupportedPlatform,
        GateRefusal::Architecture => e == RuntimeGateError::UnsupportedArchitecture,
        GateRefusal::Mono => e == RuntimeGateError::MonoBackend,
        GateRefusal::Unavailable => e == RuntimeGateError::Il2CppRuntimeUnavailable,
        GateRefusal::Missing(i) => e matches RuntimeGateError::MissingExport(n) && n == export_name(i),
    }
}

/// The resolved addresses, in the order of the required exports.
pub open spec fn resolved_addresses(exports: Seq<Option<usize>>) -> Seq<usize> {
    Seq::new(REQUIRED_EXPORT_COUNT as nat, |i: int| export_at(exports, i)->0)
}

/// The resolved public IL2CPP export contract of a process.
#[derive(Debug, PartialEq, Eq)]
pub struct Il2CppRuntimeGate {
    export_addresses: Vec<usize>,
}

impl View for Il2CppRuntimeGate {
    type V = Seq<usize>;

    closed spec fn view(&self) -> Seq<usize> {
        self.export_addresses@
    }
}

impl Il2CppRuntimeGate {
    #[verifier::type_invariant]
    closed spec fn complete(self) -> bool {
        self.export_addresses@.len() == REQUIRED_EXPORT_COUNT
    }

    /// Judges what the current process shows of its runtime. Mono is refused before
    /// IL2CPP is considered, and exports are resolved in order, the first missing one
    /// being reported.
    #[verifier::loop_isolation(false)]
    pub fn inspect_current_process(observed: &ObservedRuntime) -> (r: Result<Self, RuntimeGateError>)
        ensures
            match r {
                Ok(g) => refusal(observed.platform, observed.mono_loaded, observed.il2cpp_loaded,
                    observed.export_addresses@) is None
                    && g@ == resolved_addresses(observed.export_addresses@),
                Err(e) => refusal(observed.platform, observed.mono_loaded, observed.il2cpp_loaded,
                    observed.export_addresses@) matches Some(k) && reports(e, k),
            },
    {
        match observed.platform {
            HostPlatform::WindowsX64 => {},
            HostPlatform::WindowsOther => return Err(RuntimeGateError::UnsupportedArchitecture),
            HostPlatform::Other => return Err(RuntimeGateError::UnsupportedPlatform),
        }
        if observed.mono_loaded {
            return Err(RuntimeGateError::MonoBackend);
        }
        if !observed.il2cpp_loaded {
            return Err(RuntimeGateError::Il2CppRuntimeUnavailable);
        }
        let exports = &observed.export_addresses;
        let mut addresses: Vec<usize> = Vec::new();
        let mut i: usize = 0;
        while i < REQUIRED_EXPORT_COUNT
            invariant
                i <= REQUIRED_EXPORT_COUNT,
                addresses@.len() == i,
                first_missing(exports@) == first_missing_from(exports@, i as int),
                forall|k: int| 0 <= k < i ==> export_at(exports@, k) == Some(#[trigger] addresses@[k]),
            decreases REQUIRED_EXPORT_COUNT - i,
        {
            let found: Option<usize> = if i < exports.len() { exports[i] } else { None };
            match found {
                Some(a) => addresses.push(a),
                None => {
                    let name = match required_export_name(i) {
                        Some(n) => n,
                        None => return Err(RuntimeGateError::Il2CppRuntimeUnavailable),
                    };
                    return Err(RuntimeGateError::MissingExport(name));
                },
            }
            i += 1;
        }
        assert(addresses@ =~= resolved_addresses(exports@));
        Ok(Il2CppRuntimeGate { export_addresses: addresses })
    }

    pub fn resolved_export_count(&self) -> (r: usize)
        ensures
            r == REQUIRED_EXPORT_COUNT,
            r == self@.len(),
    {
        proof {
            use_type_invariant(self);
        }
        self.export_addresses.len()
    }

    /// The address of the required export named `name`.
    pub fn address(&self, name: &str) -> (r: usize)
        requires
            exists|i: int| 0 <= i < REQUIRED_EXPORT_COUNT && export_name(i)@ == name@,
        ensures
            exists|i: int| 0 <= i < REQUIRED_EXPORT_COUNT && export_name(i)@ == name@ && r == self@[i],
    {
        proof {
            use_type_invariant(self);
        }
        let mut i: usize = 0;
        while i < REQUIRED_EXPORT_COUNT
            invariant
                i <= REQUIRED_EXPORT_COUNT,
                self.export_addresses@.len() == REQUIRED_EXPORT_COUNT,
                exists|j: int| i <= j < REQUIRED_EXPORT_COUNT && export_name(j)@ == name@,
            decreases REQUIRED_EXPORT_COUNT - i,
        {
            let n = match required_export_name(i) {
                Some(n) => n,
                None => return 0,
            };
            if str_eq(n, name) {
                assert(export_name(i as int)@ == name@ && self@[i as int] == self.export_addresses@[i as int]);
                return self.export_addresses[i];
            }
            i += 1;
        }
        0
    }
}

impl Clone for Il2CppRuntimeGate {
    fn clone(&self) -> (r: Self)
        ensures
            r@ == self@,
    {
        proof {
            use_type_invariant(self);
        }
        let mut out: Vec<usize> = Vec::new();
        let mut i: usize = 0;
        while i < self.export_addresses.len()
            invariant
                i <= self.export_addresses@.len(),
                out@ == self.export_addresses@.take(i as int),
            decreases self.export_addresses.len() - i,
        {
            out.push(self.export_addresses[i]);
            i += 1;
            assert(out@ =~= self.export_addresses@.take(i as int));
        }
        assert(out@ =~= self.export_addresses@);
        Il2CppRuntimeGate { export_addresses: out }
    }
}

} // verus!
