//! Generated output and the backend registry's error taxonomy.

use vstd::prelude::*;
use vstd::string::StringExecFns;
use crate::topo_sort::{SpecTopoSortError, TopoSortError, topo_error_text};

verus! {

/// One generated source file.
#[derive(Debug, PartialEq)]
pub struct GeneratedFile {
    pub path: String,
    pub content: String,
}

/// View of [`GeneratedFile`].
#[verifier::ext_equal]
pub struct SpecGeneratedFile {
    pub path: Seq<char>,
    pub content: Seq<char>,
}

impl View for GeneratedFile {
    type V = SpecGeneratedFile;

    open spec fn view(&self) -> SpecGeneratedFile {
        SpecGeneratedFile { path: self.path@, content: self.content@ }
    }
}

/// The files one backend invocation produced.
#[derive(Debug, PartialEq)]
pub struct GeneratedCode {
    pub files: Vec<GeneratedFile>,
}

/// A failure while generating code.
#[derive(Debug, PartialEq)]
pub enum BackendError {
    /// No backend of the requested name is registered.
    NotFound(String),
    /// Two lowered types share a name, so no dependency order exists.
    DuplicateType(String),
    /// The topological sort failed.
    Sort(TopoSortError),
    /// A loaded module lacks a required export.
    MissingExport(String),
    /// A loaded module returned a value of an unexpected shape.
    BadReturnShape(String),
    /// A loaded module produced text that is not UTF-8.
    BadUtf8(String),
    /// A read or write of a loaded module's memory failed.
    MemoryFault(String),
    /// A module could not be compiled or instantiated.
    Module(String),
    /// The emitter does not support the requested format, such as a
    /// native-endianness declaration it refuses to resolve silently.
    Unsupported(String),
}

/// View of [`BackendError`].
#[verifier::ext_equal]
pub enum SpecBackendError {
    NotFound(Seq<char>),
    DuplicateType(Seq<char>),
    Sort(SpecTopoSortError),
    MissingExport(Seq<char>),
    BadReturnShape(Seq<char>),
    BadUtf8(Seq<char>),
    MemoryFault(Seq<char>),
    Module(Seq<char>),
    Unsupported(Seq<char>),
}

impl View for BackendError {
    type V = SpecBackendError;

    open spec fn view(&self) -> SpecBackendError {
        match self {
            BackendError::NotFound(s) => SpecBackendError::NotFound(s@),
            BackendError::DuplicateType(s) => SpecBackendError::DuplicateType(s@),
            BackendError::Sort(e) => SpecBackendError::Sort(e@),
            BackendError::MissingExport(s) => SpecBackendError::MissingExport(s@),
            BackendError::BadReturnShape(s) => SpecBackendError::BadReturnShape(s@),
            BackendError::BadUtf8(s) => SpecBackendError::BadUtf8(s@),
            BackendError::MemoryFault(s) => SpecBackendError::MemoryFault(s@),
            BackendError::Module(s) => SpecBackendError::Module(s@),
            BackendError::Unsupported(s) => SpecBackendError::Unsupported(s@),
        }
    }
}

/// The human-readable message of a [`BackendError`].
pub open spec fn backend_error_text(e: SpecBackendError) -> Seq<char> {
    match e {
        SpecBackendError::NotFound(s) => "Backend '"@ + s + "' not found"@,
        SpecBackendError::DuplicateType(s) => "Duplicate type definition: "@ + s,
        SpecBackendError::Sort(e2) => topo_error_text(e2),
        SpecBackendError::MissingExport(s) => "Missing export: "@ + s,
        SpecBackendError::BadReturnShape(s) => "Bad return shape: "@ + s,
        SpecBackendError::BadUtf8(s) => "Invalid UTF-8: "@ + s,
        SpecBackendError::MemoryFault(s) => "Memory fault: "@ + s,
        SpecBackendError::Module(s) => "Module failure: "@ + s,
        SpecBackendError::Unsupported(s) => "Unsupported: "@ + s,
    }
}

impl BackendError {
    /// The human-readable message of this error.
    pub fn message(&self) -> (r: String)
        ensures
            r@ == backend_error_text(self@),
    {
        match self {
            BackendError::NotFound(s) => {
                let mut m = String::from_str("Backend '");
                m.append(s.as_str());
                m.append("' not found");
                m
            },
            BackendError::DuplicateType(s) => {
                let mut m = String::from_str("Duplicate type definition: ");
                m.append(s.as_str());
                m
            },
            BackendError::Sort(e) => e.message(),
            BackendError::MissingExport(s) => {
                let mut m = String::from_str("Missing export: ");
                m.append(s.as_str());
                m
            },
            BackendError::BadReturnShape(s) => {
                let mut m = String::from_str("Bad return shape: ");
                m.append(s.as_str());
                m
            },
            BackendError::BadUtf8(s) => {
                let mut m = String::from_str("Invalid UTF-8: ");
                m.append(s.as_str());
                m
            },
            BackendError::MemoryFault(s) => {
                let mut m = String::from_str("Memory fault: ");
                m.append(s.as_str());
                m
            },
            BackendError::Module(s) => {
                let mut m = String::from_str("Module failure: ");
                m.append(s.as_str());
                m
            },
            BackendError::Unsupported(s) => {
                let mut m = String::from_str("Unsupported: ");
                m.append(s.as_str());
                m
            },
        }
    }
}

} // verus!
verus! {

/// A registered backend: the built-in C++ emitter, or a backend loaded
/// from a binary module.
pub enum Backend {
    Cpp(crate::cpp::codegen::CppBackend),
    Wasm(crate::wasm::WasmBackend),
}

/// The registry name of a backend.
pub open spec fn backend_name_of(b: Backend) -> Seq<char> {
    match b {
        Backend::Cpp(_) => "cpp"@,
        Backend::Wasm(w) => w@.backend_name,
    }
}

/// What a backend's own `generate` guarantees, per kind.
pub open spec fn backend_generate_post(
    b: Backend,
    lir: crate::lir::LirFormat,
    r: Result<GeneratedCode, BackendError>,
) -> bool {
    match b {
        Backend::Cpp(_) => crate::cpp::codegen::cpp_generate_post(lir, r),
        Backend::Wasm(w) => crate::wasm::wasm_generate_post(w, lir, r),
    }
}

impl Backend {
    /// The registry name of this backend.
    pub fn name(&self) -> (r: &str)
        ensures
            r@ == backend_name_of(*self),
    {
        match self {
            Backend::Cpp(c) => c.name(),
            Backend::Wasm(w) => w.name(),
        }
    }

    /// Generates code for a lowered format with this backend, under the
    /// backend's own contract.
    pub fn generate(&self, lir: &crate::lir::LirFormat) -> (r: Result<
        GeneratedCode,
        BackendError,
    >)
        ensures
            backend_generate_post(*self, *lir, r),
    {
        match self {
            Backend::Cpp(c) => c.generate(lir),
            Backend::Wasm(w) => w.generate(lir),
        }
    }
}

/// The names of the registered backends, in registration order.
pub open spec fn registry_names(s: Seq<Backend>) -> Seq<Seq<char>> {
    s.map_values(|b: Backend| backend_name_of(b))
}

/// The backend held under a name, searching from index `i`: the first
/// entry of that name.
pub open spec fn reg_lookup_from(s: Seq<Backend>, name: Seq<char>, i: int) -> Option<Backend>
    decreases s.len() - i,
{
    if i < 0 || i >= s.len() {
        None
    } else if backend_name_of(s[i]) == name {
        Some(s[i])
    } else {
        reg_lookup_from(s, name, i + 1)
    }
}

/// The backend held under a name, if any.
pub open spec fn reg_lookup(s: Seq<Backend>, name: Seq<char>) -> Option<Backend> {
    reg_lookup_from(s, name, 0)
}

proof fn lemma_lookup_update_other(s: Seq<Backend>, i: int, b: Backend, n: Seq<char>, j: int)
    requires
        0 <= i < s.len(),
        backend_name_of(s[i]) == backend_name_of(b),
        n != backend_name_of(b),
        j >= 0,
    ensures
        reg_lookup_from(s.update(i, b), n, j) == reg_lookup_from(s, n, j),
    decreases s.len() - j,
{
    if j < s.len() {
        lemma_lookup_update_other(s, i, b, n, j + 1);
    }
}

proof fn lemma_lookup_update_self(s: Seq<Backend>, i: int, b: Backend, j: int)
    requires
        0 <= j <= i < s.len(),
        backend_name_of(s[i]) == backend_name_of(b),
        forall|k: int| j <= k < i ==> backend_name_of(#[trigger] s[k]) != backend_name_of(b),
    ensures
        reg_lookup_from(s.update(i, b), backend_name_of(b), j) == Some(b),
    decreases i - j,
{
    if j < i {
        lemma_lookup_update_self(s, i, b, j + 1);
    }
}

proof fn lemma_lookup_push_other(s: Seq<Backend>, b: Backend, n: Seq<char>, j: int)
    requires
        n != backend_name_of(b),
        j >= 0,
    ensures
        reg_lookup_from(s.push(b), n, j) == reg_lookup_from(s, n, j),
    decreases s.len() + 1 - j,
{
    if j < s.len() + 1 {
        lemma_lookup_push_other(s, b, n, j + 1);
    }
}

proof fn lemma_lookup_push_self(s: Seq<Backend>, b: Backend, j: int)
    requires
        0 <= j <= s.len(),
        forall|k: int| j <= k < s.len() ==> backend_name_of(#[trigger] s[k]) != backend_name_of(
            b,
        ),
    ensures
        reg_lookup_from(s.push(b), backend_name_of(b), j) == Some(b),
    decreases s.len() + 1 - j,
{
    if j < s.len() {
        lemma_lookup_push_self(s, b, j + 1);
    }
}

/// An instance-scoped mapping from backend name to backend.  Writes are
/// confined to startup; a later registration under an existing name
/// replaces the earlier backend.
pub struct PluginRegistry {
    pub backends: Vec<Backend>,
}

impl PluginRegistry {
    /// An empty registry.
    pub fn new() -> (r: PluginRegistry)
        ensures
            r.backends@.len() == 0,
            forall|n: Seq<char>| reg_lookup(r.backends@, n) is None,
    {
        let r = PluginRegistry { backends: Vec::new() };
        r
    }

    /// Registers a backend under its own name: the earlier backend of
    /// that name, if any, is replaced, and every other name keeps its
    /// binding.
    #[verifier::loop_isolation(false)]
    pub fn register(&mut self, backend: Backend)
        ensures
            reg_lookup(final(self).backends@, backend_name_of(backend)) == Some(backend),
            forall|n: Seq<char>|
                n != backend_name_of(backend) ==> #[trigger] reg_lookup(
                    final(self).backends@,
                    n,
                ) == reg_lookup(old(self).backends@, n),
            reg_lookup(old(self).backends@, backend_name_of(backend)) is Some
                ==> final(self).backends@.len() == old(self).backends@.len(),
            reg_lookup(old(self).backends@, backend_name_of(backend)) is None
                ==> final(self).backends@.len() == old(self).backends@.len() + 1,
    {
        let ghost nm = backend_name_of(backend);
        let ghost s0 = self.backends@;
        let mut i: usize = 0;
        while i < self.backends.len()
            invariant
                i <= self.backends@.len(),
                *self == *old(self),
                forall|k: int| 0 <= k < i ==> backend_name_of(#[trigger] s0[k]) != nm,
                reg_lookup(s0, nm) == reg_lookup_from(s0, nm, i as int),
            decreases self.backends@.len() - i,
        {
            let same = {
                let a = self.backends[i].name();
                let b = backend.name();
                crate::strutil::str_eq(a, b)
            };
            if same {
                proof {
                    assert(reg_lookup(s0, nm) == Some(s0[i as int]));
                    lemma_lookup_update_self(s0, i as int, backend, 0);
                    assert forall|n: Seq<char>|
                        n != nm implies #[trigger] reg_lookup(s0.update(i as int, backend), n)
                        == reg_lookup(s0, n) by {
                        lemma_lookup_update_other(s0, i as int, backend, n, 0);
                    };
                }
                self.backends.set(i, backend);
                return ;
            }
            i += 1;
        }
        proof {
            assert(reg_lookup(s0, nm) is None);
            lemma_lookup_push_self(s0, backend, 0);
            assert forall|n: Seq<char>|
                n != nm implies #[trigger] reg_lookup(s0.push(backend), n) == reg_lookup(
                s0,
                n,
            ) by {
                lemma_lookup_push_other(s0, backend, n, 0);
            };
        }
        self.backends.push(backend);
    }

    /// The backend registered under a name, if any: the binding the
    /// latest `register` of that name left.
    pub fn get(&self, name: &str) -> (r: Option<&Backend>)
        ensures
            match r {
                Some(b) => reg_lookup(self.backends@, name@) == Some(*b),
                None => reg_lookup(self.backends@, name@) is None,
            },
    {
        let mut i: usize = 0;
        while i < self.backends.len()
            invariant
                i <= self.backends@.len(),
                reg_lookup(self.backends@, name@) == reg_lookup_from(
                    self.backends@,
                    name@,
                    i as int,
                ),
            decreases self.backends@.len() - i,
        {
            let same = crate::strutil::str_eq(self.backends[i].name(), name);
            if same {
                return Some(&self.backends[i]);
            }
            i += 1;
        }
        None
    }

    /// The names of the registered backends, in registration order.
    pub fn list_backends(&self) -> (r: Vec<String>)
        ensures
            crate::seq_view::view_seq(r@) == registry_names(self.backends@),
    {
        let mut out: Vec<String> = Vec::new();
        proof {
            assert(crate::seq_view::view_seq(out@) =~= Seq::<Seq<char>>::empty());
            assert(registry_names(self.backends@).len() == self.backends@.len());
        }
        let mut i: usize = 0;
        while i < self.backends.len()
            invariant
                i <= self.backends@.len(),
                crate::seq_view::view_seq(out@) == registry_names(self.backends@).subrange(
                    0,
                    i as int,
                ),
            decreases self.backends@.len() - i,
        {
            let nm = {
                let n = self.backends[i].name();
                String::from_str(n)
            };
            proof {
                crate::seq_view::lemma_view_seq_push_any(out@, nm);
                assert(crate::seq_view::view_seq(out@).push(nm@) =~= registry_names(
                    self.backends@,
                ).subrange(0, i + 1 as int));
            }
            out.push(nm);
            i += 1;
        }
        proof {
            assert(crate::seq_view::view_seq(out@) =~= registry_names(self.backends@));
        }
        out
    }

    /// Generates code with the backend held under the given name, under
    /// that backend's own contract; an unknown name yields `NotFound`.
    pub fn generate(&self, backend_name: &str, lir: &crate::lir::LirFormat) -> (r: Result<
        GeneratedCode,
        BackendError,
    >)
        ensures
            match reg_lookup(self.backends@, backend_name@) {
                Some(b) => backend_generate_post(b, *lir, r),
                None => r matches Err(e) && e@ == SpecBackendError::NotFound(backend_name@),
            },
    {
        match self.get(backend_name) {
            Some(b) => b.generate(lir),
            None => Err(BackendError::NotFound(String::from_str(backend_name))),
        }
    }
}

impl Default for PluginRegistry {
    /// An empty registry.
    fn default() -> (r: PluginRegistry)
        ensures
            r.backends@.len() == 0,
    {
        PluginRegistry::new()
    }
}

} // verus!
