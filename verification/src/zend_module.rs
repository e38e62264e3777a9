//! The module, function, argument and class descriptor records the host
//! consumes at registration time. They are host-defined C-layout
//! records; this layer only fills them in, so the model carries their
//! fields as plain values and the boundary glue lays them out.

use vstd::prelude::*;

verus! {

/// The host API version this layer targets.
pub const ZEND_MODULE_API_NO: i32 = 20151012;

/// Whether the targeted host build carries debug assertions.
pub const ZEND_DEBUG: u8 = 0;

/// Whether the targeted host build is thread-safe (one interpreter per
/// thread). The build-time choice only affects which host entry points
/// are linked, never this layer's control flow.
pub const ZEND_ZTS: u8 = 0;

/// The byte size of the host's module record in its C layout on the
/// 64-bit target; the host compares it to detect ABI mismatches.
pub const ZEND_MODULE_ENTRY_SIZE: u16 = 168;

/// Argument information, as the host's internal argument-info record
/// carries it. The record at index 0 of a function's argument-info table
/// is reused as a function-information header, with the required
/// argument count where the name would be.
#[derive(Debug)]
pub struct ZendInternalArgInfo {
    /// The argument name; for the index-0 header record, absent.
    pub arg_name: Option<Vec<u8>>,
    /// The class name of a class-typed argument, if any.
    pub cls_name: Option<Vec<u8>>,
    /// The host's type hint for the argument.
    pub type_hint: u8,
    /// Whether the argument is passed by reference.
    pub pass_by_ref: u8,
    /// Whether null is accepted.
    pub allow_null: bool,
    /// Whether the argument is variadic.
    pub is_variadic: bool,
}

/// One function the module exposes to the host.
#[derive(Debug)]
pub struct ZendFunctionEntry {
    /// The function name.
    pub name: Vec<u8>,
    /// Whether a handler is attached; the handler itself is a foreign
    /// function pointer the boundary glue supplies.
    pub has_handler: bool,
    /// The argument-info table, header record first.
    pub arg_info: Vec<ZendInternalArgInfo>,
    /// How many arguments the function declares.
    pub num_args: u32,
    /// The host's function flags.
    pub flags: u32,
}

/// A class registered with the host. Parent links, method tables and
/// property tables live in host memory and are reached through host
/// entry points; the model carries the plain fields.
#[derive(Debug)]
pub struct ZendClassEntry {
    /// The host's class-entry kind byte.
    pub ty: u8,
    /// The class name.
    pub name: Vec<u8>,
    /// The reference count of the class entry.
    pub refcount: i32,
    /// The host's class flags.
    pub ce_flags: u32,
    /// How many declared instance properties the class has.
    pub default_prop_count: i32,
    /// How many declared static members the class has.
    pub default_static_member_count: i32,
}

/// The module record handed to the host once at startup, read-only
/// thereafter. Callback slots are foreign function pointers supplied by
/// the boundary glue; the model records only which are present.
#[derive(Debug)]
pub struct ZendModuleEntry {
    /// The record's byte size in the host's C layout.
    pub size: u16,
    /// The host API version the module was built against.
    pub zend_api: i32,
    /// Whether the module was built against a debug host.
    pub zend_debug: u8,
    /// Whether the module was built against a thread-safe host.
    pub zts: u8,
    /// The module name; the host requires one.
    pub name: Option<Vec<u8>>,
    /// The functions the module exposes.
    pub functions: Option<Vec<ZendFunctionEntry>>,
    /// Whether a module-startup callback is attached.
    pub has_module_startup_func: bool,
    /// Whether a request-startup callback is attached.
    pub has_request_startup_func: bool,
    /// Whether a module-shutdown callback is attached.
    pub has_module_shutdown_func: bool,
    /// Whether a request-shutdown callback is attached.
    pub has_request_shutdown_func: bool,
    /// Whether an info callback is attached.
    pub has_info_func: bool,
    /// The module version; the host requires one.
    pub version: Option<Vec<u8>>,
    /// The byte size of the module's globals record.
    pub globals_size: usize,
    /// Whether the host has started the module.
    pub module_started: i32,
    /// The host's module kind byte.
    pub ztype: u8,
    /// The host-assigned module number.
    pub module_number: i32,
    /// The host build identifier the module claims compatibility with.
    pub build_id: Vec<u8>,
}

/// The host build identifier matching the targeted API version.
fn zend_module_build_id() -> (r: Vec<u8>)
    ensures
        r@ =~= "API20151012,NTS"@.map_values(|c: char| c as u8),
{
    proof {
        reveal_strlit("API20151012,NTS");
    }
    let s = "API20151012,NTS";
    let v = vstd::slice::slice_to_vec(s.as_bytes());
    proof {
        vstd::string::is_ascii_spec_bytes(s);
        assert(v@ =~= s@.map_values(|c: char| c as u8)) by {
            assert(v@ =~= Seq::new(s@.len(), |i: int| s@.index(i) as u8));
        }
    }
    v
}

/// Build a fresh module record: correct size, API version, build flags
/// and build identifier, the given function table, and every other slot
/// empty. Name and version stay unset here; the embedder fills them
/// before registration, since the host refuses a module without them.
pub fn make_module(funcs: Option<Vec<ZendFunctionEntry>>) -> (r: ZendModuleEntry)
    ensures
        r.size == ZEND_MODULE_ENTRY_SIZE,
        r.zend_api == ZEND_MODULE_API_NO,
        r.zend_debug == ZEND_DEBUG,
        r.zts == ZEND_ZTS,
        r.name is None,
        r.functions == funcs,
        !r.has_module_startup_func,
        !r.has_request_startup_func,
        !r.has_module_shutdown_func,
        !r.has_request_shutdown_func,
        !r.has_info_func,
        r.version is None,
        r.globals_size == 0,
        r.module_started == 0,
        r.ztype == 0,
        r.module_number == 0,
        r.build_id@ =~= "API20151012,NTS"@.map_values(|c: char| c as u8),
{
    ZendModuleEntry {
        size: ZEND_MODULE_ENTRY_SIZE,
        zend_api: ZEND_MODULE_API_NO,
        zend_debug: ZEND_DEBUG,
        zts: ZEND_ZTS,
        name: None,
        functions: funcs,
        has_module_startup_func: false,
        has_request_startup_func: false,
        has_module_shutdown_func: false,
        has_request_shutdown_func: false,
        has_info_func: false,
        version: None,
        globals_size: 0,
        module_started: 0,
        ztype: 0,
        module_number: 0,
        build_id: zend_module_build_id(),
    }
}

} // verus!
