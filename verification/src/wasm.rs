//! The loader for externally compiled backend modules: a binary module
//! exporting `memory`, `get_name`, `get_version`, `get_file_extension`,
//! `alloc` and `generate` over a packed pointer/length ABI.
//!
//! The module engine is trusted through the wrappers below; everything
//! that decides — the ABI shape checks, the unpacking of packed returns,
//! and the assembly of the generated file — is verified.

use vstd::prelude::*;
use vstd::string::{StrSliceExecFns, StringExecFns};
use crate::lir::LirFormat;
use crate::registry::{BackendError, GeneratedCode, GeneratedFile};

verus! {

#[verifier::external_type_specification]
#[verifier::external_body]
pub struct ExStore(wasmer::Store);

#[verifier::external_type_specification]
#[verifier::external_body]
pub struct ExInstance(wasmer::Instance);

#[verifier::external_type_specification]
#[verifier::external_body]
pub struct ExValue(wasmer::Value);

/// A module instance together with the store it was created in.  The
/// engine asserts that an instance is only ever used with its own store
/// and panics otherwise; the fields are private and the one constructor
/// below builds both together, so no caller can present a mismatched
/// pair.
pub struct WasmSession {
    store: wasmer::Store,
    instance: wasmer::Instance,
}

/// A failure of one call into a loaded module.
pub enum WasmCallFault {
    /// The named export does not exist.
    NoExport(String),
    /// The export exists but the call trapped.
    CallFailed(String),
}

/// Relies on `wasmer::Store::default`, `wasmer::Module::new` and
/// `wasmer::Instance::new` (with `wasmer::Imports::new`, the empty import
/// set): compiles the module and instantiates it inside one fresh store,
/// so the returned pair is consistent by construction; compile, link and
/// start failures surface as the engine's message.
#[verifier::external_body]
fn wasm_session_new(bytes: &Vec<u8>) -> (r: Result<WasmSession, String>) {
    let mut store = wasmer::Store::default();
    let module = match wasmer::Module::new(&store, bytes.as_slice()) {
        Ok(m) => m,
        Err(e) => {
            return Err(e.to_string());
        },
    };
    let imports = wasmer::Imports::new();
    match wasmer::Instance::new(&mut store, &module, &imports) {
        Ok(instance) => Ok(WasmSession { store, instance }),
        Err(e) => Err(e.to_string()),
    }
}

/// Relies on `wasmer::Exports::get_function` and `wasmer::Function::call`:
/// calls an exported function of the session's instance in the session's
/// own store — the pairing the engine asserts — with the given 32-bit
/// integer arguments, and hands back whatever values the module returned.
#[verifier::external_body]
fn wasm_call(session: &mut WasmSession, name: &str, args: &Vec<i32>) -> (r: Result<
    Vec<wasmer::Value>,
    WasmCallFault,
>) {
    let f = match session.instance.exports.get_function(name) {
        Ok(f) => f.clone(),
        Err(e) => {
            return Err(WasmCallFault::NoExport(e.to_string()));
        },
    };
    let params: Vec<wasmer::Value> = args.iter().map(|a| wasmer::Value::I32(*a)).collect();
    match f.call(&mut session.store, params.as_slice()) {
        Ok(vals) => Ok(vals.into_vec()),
        Err(e) => Err(WasmCallFault::CallFailed(e.to_string())),
    }
}

/// Relies on `wasmer::Value::i64`: the payload of a 64-bit value, or
/// nothing for a value of another type.
#[verifier::external_body]
fn wasm_value_i64(v: &wasmer::Value) -> (r: Option<i64>) {
    v.i64()
}

/// Relies on `wasmer::Value::i32`: the payload of a 32-bit value, or
/// nothing for a value of another type.
#[verifier::external_body]
fn wasm_value_i32(v: &wasmer::Value) -> (r: Option<i32>) {
    v.i32()
}

/// Relies on `wasmer::Exports::get_memory` and `wasmer::MemoryView::read`:
/// reads `len` bytes of the exported linear memory at `ptr`, viewing the
/// session's instance through the session's own store; exactly that many
/// bytes come back on success.
#[verifier::external_body]
fn wasm_memory_read(session: &WasmSession, ptr: u64, len: usize) -> (r: Result<Vec<u8>, String>)
    ensures
        r matches Ok(b) ==> b@.len() == len,
{
    let memory = match session.instance.exports.get_memory("memory") {
        Ok(m) => m,
        Err(e) => {
            return Err(e.to_string());
        },
    };
    let mut buf: Vec<u8> = vec![0u8; len];
    match memory.view(&session.store).read(ptr, &mut buf) {
        Ok(()) => Ok(buf),
        Err(e) => Err(e.to_string()),
    }
}

/// Relies on `wasmer::Exports::get_memory` and `wasmer::MemoryView::write`:
/// writes the bytes into the exported linear memory at `ptr`, viewing the
/// session's instance through the session's own store.
#[verifier::external_body]
fn wasm_memory_write(session: &WasmSession, ptr: u64, data: &Vec<u8>) -> (r: Result<(), String>) {
    let memory = match session.instance.exports.get_memory("memory") {
        Ok(m) => m,
        Err(e) => {
            return Err(e.to_string());
        },
    };
    match memory.view(&session.store).write(ptr, data.as_slice()) {
        Ok(()) => Ok(()),
        Err(e) => Err(e.to_string()),
    }
}

/// Relies on `String::from_utf8`: succeeds exactly on valid UTF-8, giving
/// the decoded text; the decoder's message otherwise.
#[verifier::external_body]
fn bytes_to_string(bytes: Vec<u8>) -> (r: Result<String, String>)
    ensures
        r matches Ok(s) ==> vstd::utf8::encode_utf8(s@) == bytes@,
{
    String::from_utf8(bytes).map_err(|e| e.to_string())
}

// ------------------------------------------------------------------
// Verified ABI logic
// ------------------------------------------------------------------

/// The pointer half of a packed return: its low 32 bits.
pub open spec fn packed_ptr(p: i64) -> u64 {
    ((p as u64) & 0xFFFF_FFFFu64) as u64
}

/// The length half of a packed return: its high 32 bits.
pub open spec fn packed_len(p: i64) -> u64 {
    ((p as u64) >> 32u64) as u64
}

/// Splits a packed return into pointer and length.
fn unpack(p: i64) -> (r: (u64, u64))
    ensures
        r.0 == packed_ptr(p),
        r.1 == packed_len(p),
{
    let u = #[verifier::truncate] (p as u64);
    ((u & 0xFFFF_FFFFu64), (u >> 32u64))
}

/// A backend loaded from a binary module.  The module's bytes are kept;
/// a fresh instance is made for every generation, so concurrent use
/// never shares an instance.
pub struct WasmBackend {
    pub backend_name: String,
    pub version: String,
    pub file_extension: String,
    pub wasm_bytes: Vec<u8>,
}

/// View of [`WasmBackend`].
#[verifier::ext_equal]
pub struct SpecWasmBackend {
    pub backend_name: Seq<char>,
    pub version: Seq<char>,
    pub file_extension: Seq<char>,
    pub wasm_bytes: Seq<u8>,
}

/// What [`WasmBackend::generate`] guarantees: a lookup failure is never
/// reported, an exchange text too large for the module ABI is refused
/// before any module runs, and a produced file is named after the format
/// with the module's extension.  The file's content is whatever the
/// module returned.
pub open spec fn wasm_generate_post(
    b: WasmBackend,
    lir: LirFormat,
    r: Result<GeneratedCode, BackendError>,
) -> bool {
    &&& (r matches Err(e) ==> !(e@ is NotFound))
    &&& (vstd::utf8::encode_utf8(crate::exchange::lir_json(lir)).len() > i32::MAX as int ==> (
    r matches Err(e) && e@ is MemoryFault))
    &&& (r matches Ok(code) ==> {
        &&& crate::seq_view::view_seq(code.files@).len() == 1
        &&& crate::seq_view::view_seq(code.files@)[0].path == crate::strutil::underscored(
            crate::strutil::lower_of(lir@.name),
        ) + "."@ + b@.file_extension
    })
}

impl View for WasmBackend {
    type V = SpecWasmBackend;

    open spec fn view(&self) -> SpecWasmBackend {
        SpecWasmBackend {
            backend_name: self.backend_name@,
            version: self.version@,
            file_extension: self.file_extension@,
            wasm_bytes: self.wasm_bytes@,
        }
    }
}

fn call_string_fn(session: &mut WasmSession, fn_name: &str) -> (r: Result<String, BackendError>)
    ensures
        r matches Err(e) ==> !(e@ is NotFound),
{
    let args: Vec<i32> = Vec::new();
    let vals = match wasm_call(session, fn_name, &args) {
        Ok(vs) => vs,
        Err(WasmCallFault::NoExport(m)) => {
            return Err(BackendError::MissingExport(m));
        },
        Err(WasmCallFault::CallFailed(m)) => {
            return Err(BackendError::Module(m));
        },
    };
    if vals.len() != 1 {
        return Err(
            BackendError::BadReturnShape(
                String::from_str("expected a single packed 64-bit return"),
            ),
        );
    }
    let packed = match wasm_value_i64(&vals[0]) {
        Some(p) => p,
        None => {
            return Err(
                BackendError::BadReturnShape(String::from_str("expected a 64-bit return")),
            );
        },
    };
    let (ptr, len) = unpack(packed);
    if len > usize::MAX as u64 {
        return Err(BackendError::MemoryFault(String::from_str("returned length too large")));
    }
    let bytes = match wasm_memory_read(session, ptr, len as usize) {
        Ok(b) => b,
        Err(m) => {
            return Err(BackendError::MemoryFault(m));
        },
    };
    match bytes_to_string(bytes) {
        Ok(s) => Ok(s),
        Err(m) => Err(BackendError::BadUtf8(m)),
    }
}

impl WasmBackend {
    /// A backend of the given name with no module loaded; generation
    /// fails until one is.
    pub fn new(name: String) -> (r: WasmBackend)
        ensures
            r@.backend_name == name@,
            r@.version == "0.1.0"@,
            r@.file_extension == "unknown"@,
            r@.wasm_bytes == Seq::<u8>::empty(),
    {
        WasmBackend {
            backend_name: name,
            version: String::from_str("0.1.0"),
            file_extension: String::from_str("unknown"),
            wasm_bytes: Vec::new(),
        }
    }

    /// Loads a backend from the bytes of a compiled module: a throwaway
    /// instance answers `get_name`, `get_version` and
    /// `get_file_extension`.
    pub fn from_bytes(wasm_bytes: Vec<u8>) -> (r: Result<WasmBackend, BackendError>)
        ensures
            r matches Ok(b) ==> b@.wasm_bytes == wasm_bytes@,
            r matches Err(e) ==> !(e@ is NotFound),
    {
        let mut session = match wasm_session_new(&wasm_bytes) {
            Ok(s) => s,
            Err(m) => {
                return Err(BackendError::Module(m));
            },
        };
        let backend_name = match call_string_fn(&mut session, "get_name") {
            Ok(s) => s,
            Err(e) => {
                return Err(e);
            },
        };
        let version = match call_string_fn(&mut session, "get_version") {
            Ok(s) => s,
            Err(e) => {
                return Err(e);
            },
        };
        let file_extension = match call_string_fn(&mut session, "get_file_extension") {
            Ok(s) => s,
            Err(e) => {
                return Err(e);
            },
        };
        Ok(WasmBackend { backend_name, version, file_extension, wasm_bytes })
    }

    /// The registry name of this backend.
    pub fn name(&self) -> (r: &str)
        ensures
            r@ == self@.backend_name,
    {
        self.backend_name.as_str()
    }

    fn call_generate(&self, payload: &str) -> (r: Result<String, BackendError>)
        ensures
            r matches Err(e) ==> !(e@ is NotFound),
            vstd::utf8::encode_utf8(payload@).len() > i32::MAX as int ==> (r matches Err(e)
                && e@ is MemoryFault),
    {
        let payload_bytes = payload.as_bytes_vec();
        if payload_bytes.len() > i32::MAX as usize {
            return Err(BackendError::MemoryFault(String::from_str("payload too large")));
        }
        let mut session = match wasm_session_new(&self.wasm_bytes) {
            Ok(s) => s,
            Err(m) => {
                return Err(BackendError::Module(m));
            },
        };
        let json_len = payload_bytes.len() as i32;
        let mut alloc_args: Vec<i32> = Vec::new();
        alloc_args.push(json_len);
        let alloc_vals = match wasm_call(&mut session, "alloc", &alloc_args) {
            Ok(vs) => vs,
            Err(WasmCallFault::NoExport(m)) => {
                return Err(BackendError::MissingExport(m));
            },
            Err(WasmCallFault::CallFailed(m)) => {
                return Err(BackendError::Module(m));
            },
        };
        if alloc_vals.len() != 1 {
            return Err(
                BackendError::BadReturnShape(
                    String::from_str("expected a single allocation pointer"),
                ),
            );
        }
        let ptr = match wasm_value_i32(&alloc_vals[0]) {
            Some(p) => p,
            None => {
                return Err(
                    BackendError::BadReturnShape(
                        String::from_str("expected a 32-bit allocation pointer"),
                    ),
                );
            },
        };
        if ptr < 0 {
            return Err(BackendError::MemoryFault(String::from_str("negative pointer")));
        }
        match wasm_memory_write(&session, ptr as u64, &payload_bytes) {
            Ok(()) => {},
            Err(m) => {
                return Err(BackendError::MemoryFault(m));
            },
        }
        let mut gen_args: Vec<i32> = Vec::new();
        gen_args.push(ptr);
        gen_args.push(json_len);
        let gen_vals = match wasm_call(&mut session, "generate", &gen_args) {
            Ok(vs) => vs,
            Err(WasmCallFault::NoExport(m)) => {
                return Err(BackendError::MissingExport(m));
            },
            Err(WasmCallFault::CallFailed(m)) => {
                return Err(BackendError::Module(m));
            },
        };
        if gen_vals.len() != 1 {
            return Err(
                BackendError::BadReturnShape(
                    String::from_str("expected a single packed 64-bit return"),
                ),
            );
        }
        let packed = match wasm_value_i64(&gen_vals[0]) {
            Some(p) => p,
            None => {
                return Err(
                    BackendError::BadReturnShape(String::from_str("expected a 64-bit return")),
                );
            },
        };
        let (rptr, rlen) = unpack(packed);
        if rlen > usize::MAX as u64 {
            return Err(
                BackendError::MemoryFault(String::from_str("returned length too large")),
            );
        }
        let out_bytes = match wasm_memory_read(&session, rptr, rlen as usize) {
            Ok(b) => b,
            Err(m) => {
                return Err(BackendError::MemoryFault(m));
            },
        };
        match bytes_to_string(out_bytes) {
            Ok(s) => Ok(s),
            Err(m) => Err(BackendError::BadUtf8(m)),
        }
    }

    /// Serializes the format as the canonical exchange text, hands it to
    /// a fresh instance of the module, and wraps the returned text as one
    /// generated file named after the format, with the module's
    /// extension.
    pub fn generate(&self, lir: &LirFormat) -> (r: Result<GeneratedCode, BackendError>)
        ensures
            wasm_generate_post(*self, *lir, r),
    {
        let payload = crate::exchange::lir_to_exchange(lir);
        let content = match self.call_generate(payload.as_str()) {
            Ok(s) => s,
            Err(e) => {
                return Err(e);
            },
        };
        let low = crate::strutil::lowercase(lir.name.as_str());
        let mut path = crate::strutil::dash_to_underscore(low.as_str());
        path.append(".");
        path.append(self.file_extension.as_str());
        let mut files: Vec<GeneratedFile> = Vec::new();
        files.push(GeneratedFile { path, content });
        let out = GeneratedCode { files };
        proof {
            assert(crate::seq_view::view_seq(out.files@).len() == 1);
            assert(crate::seq_view::view_seq(out.files@)[0] == out.files@[0]@);
        }
        Ok(out)
    }
}

} // verus!
