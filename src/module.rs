//! Descriptors that the engine's loader reads: one per exported function, and
//! one for the module. Native entry points are carried as addresses.
use vstd::prelude::*;
use vstd::string::{StrSliceExecFns, StringExecFns};

use crate::registry::{get_functions, FunctionCache, FunctionDefinition};
use crate::zval::ZValType;

verus! {

/// The engine API version that the descriptors are laid out for.
pub const ZEND_API: u32 = 20180731;

/// One entry of a function's argument-info list. The list opens with a
/// count entry, whose only content is the number of parameters (the loader
/// reads it where a parameter's name would be); the parameters follow, each
/// with `required_num_args` 0.
pub struct ArgInfo {
    pub name: String,
    pub type_hint: ZValType,
    pub allow_null: bool,
    pub is_variadic: bool,
    pub pass_by_reference: bool,
    pub required_num_args: u64,
}

impl View for ArgInfo {
    type V = (Seq<char>, ZValType, bool, bool, bool, u64);

    open spec fn view(&self) -> (Seq<char>, ZValType, bool, bool, bool, u64) {
        (
            self.name@,
            self.type_hint,
            self.allow_null,
            self.is_variadic,
            self.pass_by_reference,
            self.required_num_args,
        )
    }
}

/// The model of the count entry for `n` parameters.
pub open spec fn count_entry(n: nat) -> (Seq<char>, ZValType, bool, bool, bool, u64) {
    (Seq::empty(), ZValType::Undef, false, false, false, n as u64)
}

impl ArgInfo {
    /// A parameter entry.
    pub fn new(
        name: String,
        ty: ZValType,
        allow_null: bool,
        is_variadic: bool,
        by_reference: bool,
    ) -> (r: ArgInfo)
        ensures
            r@ == (name@, ty, allow_null, is_variadic, by_reference, 0u64),
    {
        ArgInfo {
            name,
            type_hint: ty,
            allow_null,
            is_variadic,
            pass_by_reference: by_reference,
            required_num_args: 0,
        }
    }

    /// The count entry that opens the list of a function with `count`
    /// parameters.
    pub fn arg_count(count: u64) -> (r: ArgInfo)
        ensures
            r@ == count_entry(count as nat),
    {
        ArgInfo {
            name: String::new(),
            type_hint: ZValType::Undef,
            allow_null: false,
            is_variadic: false,
            pass_by_reference: false,
            required_num_args: count,
        }
    }

    pub fn duplicate(&self) -> (r: ArgInfo)
        ensures
            r@ == self@,
    {
        ArgInfo {
            name: self.name.clone(),
            type_hint: self.type_hint,
            allow_null: self.allow_null,
            is_variadic: self.is_variadic,
            pass_by_reference: self.pass_by_reference,
            required_num_args: self.required_num_args,
        }
    }
}

pub open spec fn args_view(args: Seq<ArgInfo>) -> Seq<(Seq<char>, ZValType, bool, bool, bool, u64)> {
    Seq::new(args.len(), |i: int| args[i]@)
}

/// One entry of the function table.
pub struct Function {
    pub fname: String,
    pub handler: u64,
    pub arg_info: Vec<ArgInfo>,
    pub num_args: u32,
}

/// `f` is the table entry of a function named `name` at `handler` whose
/// parameters are `params`: no argument info when there are none, else the
/// count entry followed by the parameters in order.
pub open spec fn describes(
    f: Function,
    name: Seq<char>,
    handler: u64,
    params: Seq<(Seq<char>, ZValType, bool, bool, bool, u64)>,
) -> bool {
    &&& f.fname@ == name
    &&& f.handler == handler
    &&& f.num_args == params.len()
    &&& if params.len() == 0 {
        f.arg_info@.len() == 0
    } else {
        &&& f.arg_info@.len() == params.len() + 1
        &&& f.arg_info@[0]@ == count_entry(params.len())
        &&& args_view(f.arg_info@).subrange(1, params.len() + 1 as int) == params
    }
}

impl Function {
    /// A function that takes no parameters.
    pub fn new(name: String, handler: u64) -> (r: Function)
        ensures
            r.fname@ == name@,
            r.handler == handler,
            r.arg_info@.len() == 0,
            r.num_args == 0,
    {
        Function { fname: name, handler, arg_info: Vec::new(), num_args: 0 }
    }

    /// A function with the parameters `args`: its argument info is the count
    /// entry, then `args`.
    pub fn new_with_args(name: String, handler: u64, args: Vec<ArgInfo>) -> (r: Function)
        requires
            args@.len() <= u32::MAX,
        ensures
            r.fname@ == name@,
            r.handler == handler,
            r.num_args == args@.len(),
            r.arg_info@.len() == args@.len() + 1,
            r.arg_info@[0]@ == count_entry(args@.len()),
            r.arg_info@.subrange(1, args@.len() + 1 as int) == args@,
    {
        let n = args.len();
        let mut info = args;
        info.insert(0, ArgInfo::arg_count(n as u64));
        assert(info@.subrange(1, n + 1) =~= args@);
        Function { fname: name, handler, arg_info: info, num_args: n as u32 }
    }

    /// The entry that ends the table.
    pub fn end() -> (r: Function)
        ensures
            r.is_end(),
    {
        Function { fname: String::new(), handler: 0, arg_info: Vec::new(), num_args: 0 }
    }

    pub open spec fn is_end(&self) -> bool {
        self.fname@.len() == 0 && self.handler == 0 && self.arg_info@.len() == 0 && self.num_args
            == 0
    }
}

/// What registration records of an exported function: its name, entry point
/// and parameters.
pub struct FunctionMeta {
    pub name: String,
    pub func: u64,
    pub args: Vec<ArgInfo>,
}

impl FunctionMeta {
    /// The function table entry for this function.
    pub fn as_function(&self) -> (r: Function)
        requires
            self.args@.len() <= u32::MAX,
        ensures
            describes(r, self.name@, self.func, args_view(self.args@)),
    {
        if self.args.len() == 0 {
            Function::new(self.name.clone(), self.func)
        } else {
            let mut args: Vec<ArgInfo> = Vec::new();
            let mut i: usize = 0;
            while i < self.args.len()
                invariant
                    i <= self.args@.len(),
                    args@.len() == i,
                    forall|j: int| 0 <= j < i ==> #[trigger] args@[j]@ == self.args@[j]@,
                decreases self.args@.len() - i,
            {
                args.push(self.args[i].duplicate());
                i = i + 1;
            }
            let ghost copy = args@;
            let r = Function::new_with_args(self.name.clone(), self.func, args);
            assert(args_view(r.arg_info@).subrange(1, self.args@.len() + 1 as int) =~= args_view(
                self.args@,
            )) by {
                assert forall|j: int| 0 <= j < self.args@.len() implies r.arg_info@[j + 1]@
                    == self.args@[j]@ by {
                    assert(r.arg_info@.subrange(1, self.args@.len() + 1 as int)[j] == copy[j]);
                }
            }
            r
        }
    }
}

/// The function table: one entry per registered function, in order, then
/// the end entry.
pub fn get_funcs(metas: &Vec<FunctionMeta>) -> (r: Vec<Function>)
    requires
        forall|i: int| 0 <= i < metas@.len() ==> (#[trigger] metas@[i]).args@.len() <= u32::MAX,
    ensures
        r@.len() == metas@.len() + 1,
        r@[metas@.len() as int].is_end(),
        forall|i: int|
            0 <= i < metas@.len() ==> describes(
                #[trigger] r@[i],
                metas@[i].name@,
                metas@[i].func,
                args_view(metas@[i].args@),
            ),
{
    let mut r: Vec<Function> = Vec::new();
    let mut i: usize = 0;
    while i < metas.len()
        invariant
            i <= metas@.len(),
            r@.len() == i,
            forall|k: int| 0 <= k < metas@.len() ==> (#[trigger] metas@[k]).args@.len() <= u32::MAX,
            forall|k: int|
                0 <= k < i ==> describes(
                    #[trigger] r@[k],
                    metas@[k].name@,
                    metas@[k].func,
                    args_view(metas@[k].args@),
                ),
        decreases metas@.len() - i,
    {
        r.push(metas[i].as_function());
        i = i + 1;
    }
    r.push(Function::end());
    r
}

/// Byte size of the module descriptor as the loader lays it out; its first
/// word holds this size, which the loader checks.
pub const MODULE_ENTRY_SIZE: u16 = 168;

/// The module descriptor, field for field in the loader's order. Pointers
/// and callbacks are addresses; 0 and `None` stand for null.
pub struct ModuleInternal {
    pub size: u16,
    pub zend_api: u32,
    pub zend_debug: u8,
    pub zts: u8,
    pub ini_entry: u64,
    pub deps: u64,
    pub name: String,
    pub functions: Vec<Function>,
    pub module_startup_func: Option<u64>,
    pub module_shutdown_func: Option<u64>,
    pub request_startup_func: Option<u64>,
    pub request_shutdown_func: Option<u64>,
    pub info_func: Option<u64>,
    pub version: String,
    pub globals_size: u64,
    pub globals_ptr: u64,
    pub globals_ctor: Option<u64>,
    pub globals_dtor: Option<u64>,
    pub post_deactivate_func: Option<u64>,
    pub module_started: i32,
    pub type_: u8,
    pub handle: u64,
    pub module_number: i32,
    pub build_id: String,
}

impl ModuleInternal {
    /// Every field is as `new` leaves it, but the function table: the size
    /// word, the API version and build id, the given name and version, and
    /// null, `None` or 0 everywhere else.
    pub open spec fn is_fresh(&self, name: Seq<char>, version: Seq<char>) -> bool {
        &&& self.size == MODULE_ENTRY_SIZE
        &&& self.zend_api == ZEND_API
        &&& self.zend_debug == 0
        &&& self.zts == 0
        &&& self.ini_entry == 0
        &&& self.deps == 0
        &&& self.name@ == name
        &&& self.module_startup_func is None
        &&& self.module_shutdown_func is None
        &&& self.request_startup_func is None
        &&& self.request_shutdown_func is None
        &&& self.info_func is None
        &&& self.version@ == version
        &&& self.globals_size == 0
        &&& self.globals_ptr == 0
        &&& self.globals_ctor is None
        &&& self.globals_dtor is None
        &&& self.post_deactivate_func is None
        &&& self.module_started == 0
        &&& self.type_ == 0
        &&& self.handle == 0
        &&& self.module_number == 0
        &&& self.build_id@ == "API20180731,NTS"@
    }

    /// A descriptor with nothing set but its size, API version, name,
    /// version and build id.
    pub fn new(name: String, version: String) -> (r: ModuleInternal)
        ensures
            r.is_fresh(name@, version@),
            r.functions@.len() == 0,
    {
        ModuleInternal {
            size: MODULE_ENTRY_SIZE,
            zend_api: ZEND_API,
            zend_debug: 0,
            zts: 0,
            ini_entry: 0,
            deps: 0,
            name,
            functions: Vec::new(),
            module_startup_func: None,
            module_shutdown_func: None,
            request_startup_func: None,
            request_shutdown_func: None,
            info_func: None,
            version,
            globals_size: 0,
            globals_ptr: 0,
            globals_ctor: None,
            globals_dtor: None,
            post_deactivate_func: None,
            module_started: 0,
            type_: 0,
            handle: 0,
            module_number: 0,
            build_id: String::from_str("API20180731,NTS"),
        }
    }

    /// Sets the startup callback; nothing else changes.
    pub fn set_startup_func(&mut self, func: u64)
        ensures
            final(self).module_startup_func == Some(func),
            *final(self) == (ModuleInternal { module_startup_func: Some(func), ..*old(self) }),
    {
        self.module_startup_func = Some(func);
    }

    /// Sets the shutdown callback; nothing else changes.
    pub fn set_shutdown_func(&mut self, func: u64)
        ensures
            final(self).module_shutdown_func == Some(func),
            *final(self) == (ModuleInternal { module_shutdown_func: Some(func), ..*old(self) }),
    {
        self.module_shutdown_func = Some(func);
    }

    /// Sets the information callback; nothing else changes.
    pub fn set_info_func(&mut self, func: u64)
        ensures
            final(self).info_func == Some(func),
            *final(self) == (ModuleInternal { info_func: Some(func), ..*old(self) }),
    {
        self.info_func = Some(func);
    }

    /// Installs the function table, ended by the end entry if it does not
    /// end with one already; nothing else changes.
    pub fn set_functions(&mut self, funcs: Vec<Function>)
        ensures
            final(self).functions@.len() > 0,
            final(self).functions@.last().is_end(),
            funcs@.len() > 0 && funcs@.last().is_end() ==> final(self).functions@ == funcs@,
            !(funcs@.len() > 0 && funcs@.last().is_end()) ==> final(self).functions@.drop_last()
                == funcs@,
            *final(self) == (ModuleInternal { functions: final(self).functions, ..*old(self) }),
    {
        let ghost orig = funcs@;
        let mut funcs = funcs;
        let n = funcs.len();
        let mut ended = false;
        if n > 0 {
            let last = &funcs[n - 1];
            ended = last.fname.as_str().unicode_len() == 0 && last.handler == 0
                && last.arg_info.len() == 0 && last.num_args == 0;
        }
        if !ended {
            funcs.push(Function::end());
            assert(funcs@.drop_last() =~= orig);
        }
        self.functions = funcs;
    }
}

/// What a module declares of itself: its name, version and information rows.
pub struct PhpModule {
    pub name: String,
    pub version: String,
    pub info: Vec<(String, String)>,
}

/// The entry of a registered parameter: its name and whether it is passed by
/// reference, with no type hint, neither nullable nor variadic.
pub open spec fn param_entry(a: (Seq<char>, bool)) -> (Seq<char>, ZValType, bool, bool, bool, u64) {
    (a.0, ZValType::Undef, false, false, a.1, 0u64)
}

pub open spec fn params_of(args: Seq<(Seq<char>, bool)>) -> Seq<
    (Seq<char>, ZValType, bool, bool, bool, u64),
> {
    Seq::new(args.len(), |i: int| param_entry(args[i]))
}

/// The registration record of a registered function.
fn meta_of(def: &FunctionDefinition) -> (r: FunctionMeta)
    ensures
        r.name@ == def@.0,
        r.func == def@.1,
        args_view(r.args@) == params_of(def@.2),
{
    let mut args: Vec<ArgInfo> = Vec::new();
    let mut i: usize = 0;
    while i < def.args.len()
        invariant
            i <= def.args@.len(),
            args@.len() == i,
            forall|j: int| 0 <= j < i ==> #[trigger] args@[j]@ == param_entry(def.args@[j]@),
        decreases def.args@.len() - i,
    {
        let a = &def.args[i];
        args.push(ArgInfo::new(a.name.clone(), ZValType::Undef, false, false, a.is_ref));
        i = i + 1;
    }
    let r = FunctionMeta { name: def.name.clone(), func: def.handler, args };
    assert(args_view(r.args@) =~= params_of(def@.2));
    r
}

/// The module descriptor for the functions registered in `cache`: a fresh
/// descriptor whose function table has one entry per registered function,
/// in the order of registration, then the end entry.
pub fn build_module(name: String, version: String, cache: &FunctionCache) -> (r: ModuleInternal)
    requires
        forall|i: int| 0 <= i < cache@.len() ==> (#[trigger] cache@[i]).2.len() <= u32::MAX,
    ensures
        r.is_fresh(name@, version@),
        r.functions@.len() == cache@.len() + 1,
        r.functions@[cache@.len() as int].is_end(),
        forall|i: int|
            0 <= i < cache@.len() ==> describes(
                #[trigger] r.functions@[i],
                cache@[i].0,
                cache@[i].1,
                params_of(cache@[i].2),
            ),
{
    let defs = get_functions(cache);
    let mut metas: Vec<FunctionMeta> = Vec::new();
    let mut i: usize = 0;
    while i < defs.len()
        invariant
            i <= defs@.len(),
            defs@.len() == cache@.len(),
            forall|k: int| 0 <= k < defs@.len() ==> #[trigger] defs@[k]@ == cache@[k],
            forall|k: int| 0 <= k < cache@.len() ==> (#[trigger] cache@[k]).2.len() <= u32::MAX,
            metas@.len() == i,
            forall|k: int|
                0 <= k < i ==> {
                    &&& (#[trigger] metas@[k]).name@ == cache@[k].0
                    &&& metas@[k].func == cache@[k].1
                    &&& args_view(metas@[k].args@) == params_of(cache@[k].2)
                },
        decreases defs@.len() - i,
    {
        let meta = meta_of(&defs[i]);
        proof {
            assert(defs@[i as int]@ == cache@[i as int]);
        }
        metas.push(meta);
        i = i + 1;
    }
    assert forall|k: int| 0 <= k < metas@.len() implies (#[trigger] metas@[k]).args@.len()
        <= u32::MAX by {
        assert(args_view(metas@[k].args@).len() == params_of(cache@[k].2).len());
    }
    let funcs = get_funcs(&metas);
    let mut module = ModuleInternal::new(name, version);
    module.set_functions(funcs);
    assert forall|k: int| 0 <= k < cache@.len() implies describes(
        #[trigger] module.functions@[k],
        cache@[k].0,
        cache@[k].1,
        params_of(cache@[k].2),
    ) by {
        assert(describes(funcs@[k], metas@[k].name@, metas@[k].func, args_view(metas@[k].args@)));
    }
    module
}

} // verus!
