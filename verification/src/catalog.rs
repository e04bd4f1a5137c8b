//! The catalogue of imports: which host functions exist, and under which
//! module and name guest bytecode finds each of them.
//!
//! An import is addressed by a module and a name. The module is the
//! namespace `env` followed by the version of the function, as in `env0`.
//! The name is the function's identifier in snake case, as `convert_case`
//! renders it: `call_arg_int` for `CallArgInt`, and `base_58` for `Base58`,
//! since it sets digits apart from letters. The catalogue is built once and
//! searched whenever a guest module is linked.

use crate::bytes::same_text;
use convert_case::{Case, Casing};
use vstd::prelude::*;

verus! {

/// The type of a value that crosses the boundary. Host functions take and
/// answer integers only; a guest function may be declared with any of these.
#[derive(Clone, Copy, Debug, PartialEq, Eq, Structural)]
pub enum ValueType {
    /// A 32-bit integer: a status, a boolean, an offset or a length.
    I32,
    /// A 64-bit integer.
    I64,
    /// A 32-bit float.
    F32,
    /// A 64-bit float.
    F64,
    /// A reference to a function.
    FuncRef,
    /// A reference to a host object.
    ExternRef,
}

/// A host function.
#[derive(Clone, Copy, Debug, PartialEq, Eq, Structural)]
pub enum HostFunction {
    CallArgInt,
    CallArgBool,
    CallArgBinary,
    CallArgString,
    CallPayment,
    CallContract,
    Base58,
    ToBase58String,
    ToLeBytes,
    Caller,
    BytesEquals,
    StringEquals,
    Concat,
    TestSetValue,
    TestGetValue,
    TestMemory,
}

/// The snake-case form that `convert_case` gives a name.
pub uninterp spec fn snake_case(name: Seq<char>) -> Seq<char>;

/// `<&str as convert_case::Casing>::to_case` with `Case::Snake`: the name in
/// snake case. The contract only names the result.
#[verifier::external_body]
pub(crate) fn to_snake_case(name: &str) -> (converted: String)
    ensures
        converted@ == snake_case(name@),
{
    name.to_case(Case::Snake)
}

impl HostFunction {
    /// The identifier under which the function is declared.
    pub open spec fn ident_spec(self) -> Seq<char> {
        match self {
            HostFunction::CallArgInt => "CallArgInt"@,
            HostFunction::CallArgBool => "CallArgBool"@,
            HostFunction::CallArgBinary => "CallArgBinary"@,
            HostFunction::CallArgString => "CallArgString"@,
            HostFunction::CallPayment => "CallPayment"@,
            HostFunction::CallContract => "CallContract"@,
            HostFunction::Base58 => "Base58"@,
            HostFunction::ToBase58String => "ToBase58String"@,
            HostFunction::ToLeBytes => "ToLeBytes"@,
            HostFunction::Caller => "Caller"@,
            HostFunction::BytesEquals => "BytesEquals"@,
            HostFunction::StringEquals => "StringEquals"@,
            HostFunction::Concat => "Concat"@,
            HostFunction::TestSetValue => "TestSetValue"@,
            HostFunction::TestGetValue => "TestGetValue"@,
            HostFunction::TestMemory => "TestMemory"@,
        }
    }

    /// The version of the function.
    pub open spec fn version_spec(self) -> u32 {
        0
    }

    /// The module under which the function is imported.
    pub open spec fn module_spec(self) -> Seq<char> {
        "env0"@
    }

    /// The name under which the function is imported.
    pub open spec fn name_spec(self) -> Seq<char> {
        snake_case(self.ident_spec())
    }

    /// The types of the parameters, in order.
    pub open spec fn params_spec(self) -> Seq<ValueType> {
        match self {
            HostFunction::CallArgInt => seq![ValueType::I64],
            HostFunction::CallArgBool => seq![ValueType::I32],
            HostFunction::CallArgBinary => seq![ValueType::I32, ValueType::I32],
            HostFunction::CallArgString => seq![ValueType::I32, ValueType::I32],
            HostFunction::CallPayment => seq![ValueType::I32, ValueType::I32, ValueType::I64],
            HostFunction::CallContract => seq![
                ValueType::I32,
                ValueType::I32,
                ValueType::I32,
                ValueType::I32,
            ],
            HostFunction::Base58 => seq![ValueType::I32, ValueType::I32],
            HostFunction::ToBase58String => seq![ValueType::I32, ValueType::I32],
            HostFunction::ToLeBytes => seq![ValueType::I32, ValueType::I32],
            HostFunction::Caller => seq![],
            HostFunction::BytesEquals => seq![
                ValueType::I32,
                ValueType::I32,
                ValueType::I32,
                ValueType::I32,
            ],
            HostFunction::StringEquals => seq![
                ValueType::I32,
                ValueType::I32,
                ValueType::I32,
                ValueType::I32,
            ],
            HostFunction::Concat => seq![
                ValueType::I32,
                ValueType::I32,
                ValueType::I32,
                ValueType::I32,
            ],
            HostFunction::TestSetValue => seq![ValueType::I32],
            HostFunction::TestGetValue => seq![],
            HostFunction::TestMemory => seq![ValueType::I32, ValueType::I32],
        }
    }

    /// How many 32-bit integers the function answers with. No host function
    /// answers with anything else.
    pub open spec fn results_spec(self) -> nat {
        match self {
            HostFunction::CallArgInt => 0,
            HostFunction::CallArgBool => 0,
            HostFunction::CallArgBinary => 1,
            HostFunction::CallArgString => 1,
            HostFunction::CallPayment => 1,
            HostFunction::CallContract => 1,
            HostFunction::Base58 => 3,
            HostFunction::ToBase58String => 3,
            HostFunction::ToLeBytes => 3,
            HostFunction::Caller => 3,
            HostFunction::BytesEquals => 2,
            HostFunction::StringEquals => 2,
            HostFunction::Concat => 3,
            HostFunction::TestSetValue => 0,
            HostFunction::TestGetValue => 1,
            HostFunction::TestMemory => 0,
        }
    }

    /// The identifier under which the function is declared.
    pub fn ident(&self) -> (ident: &'static str)
        ensures
            ident@ == self.ident_spec(),
    {
        match self {
            HostFunction::CallArgInt => "CallArgInt",
            HostFunction::CallArgBool => "CallArgBool",
            HostFunction::CallArgBinary => "CallArgBinary",
            HostFunction::CallArgString => "CallArgString",
            HostFunction::CallPayment => "CallPayment",
            HostFunction::CallContract => "CallContract",
            HostFunction::Base58 => "Base58",
            HostFunction::ToBase58String => "ToBase58String",
            HostFunction::ToLeBytes => "ToLeBytes",
            HostFunction::Caller => "Caller",
            HostFunction::BytesEquals => "BytesEquals",
            HostFunction::StringEquals => "StringEquals",
            HostFunction::Concat => "Concat",
            HostFunction::TestSetValue => "TestSetValue",
            HostFunction::TestGetValue => "TestGetValue",
            HostFunction::TestMemory => "TestMemory",
        }
    }

    /// The version of the function.
    pub fn version(&self) -> (version: u32)
        ensures
            version == self.version_spec(),
    {
        0
    }

    /// The module under which the function is imported.
    pub fn module(&self) -> (module: &'static str)
        ensures
            module@ == self.module_spec(),
    {
        "env0"
    }

    /// The name under which the function is imported.
    pub fn name(&self) -> (name: String)
        ensures
            name@ == self.name_spec(),
    {
        to_snake_case(self.ident())
    }

    /// The types of the parameters, in order.
    pub fn params(&self) -> (params: Vec<ValueType>)
        ensures
            params@ == self.params_spec(),
    {
        let params = match self {
            HostFunction::CallArgInt => vec![ValueType::I64],
            HostFunction::CallArgBool => vec![ValueType::I32],
            HostFunction::CallArgBinary => vec![ValueType::I32, ValueType::I32],
            HostFunction::CallArgString => vec![ValueType::I32, ValueType::I32],
            HostFunction::CallPayment => vec![ValueType::I32, ValueType::I32, ValueType::I64],
            HostFunction::CallContract => vec![
                ValueType::I32,
                ValueType::I32,
                ValueType::I32,
                ValueType::I32,
            ],
            HostFunction::Base58 => vec![ValueType::I32, ValueType::I32],
            HostFunction::ToBase58String => vec![ValueType::I32, ValueType::I32],
            HostFunction::ToLeBytes => vec![ValueType::I32, ValueType::I32],
            HostFunction::Caller => Vec::new(),
            HostFunction::BytesEquals => vec![
                ValueType::I32,
                ValueType::I32,
                ValueType::I32,
                ValueType::I32,
            ],
            HostFunction::StringEquals => vec![
                ValueType::I32,
                ValueType::I32,
                ValueType::I32,
                ValueType::I32,
            ],
            HostFunction::Concat => vec![
                ValueType::I32,
                ValueType::I32,
                ValueType::I32,
                ValueType::I32,
            ],
            HostFunction::TestSetValue => vec![ValueType::I32],
            HostFunction::TestGetValue => Vec::new(),
            HostFunction::TestMemory => vec![ValueType::I32, ValueType::I32],
        };
        assert(params@ =~= self.params_spec());
        params
    }

    /// How many 32-bit integers the function answers with.
    pub fn results(&self) -> (count: usize)
        ensures
            count == self.results_spec(),
    {
        match self {
            HostFunction::CallArgInt => 0,
            HostFunction::CallArgBool => 0,
            HostFunction::CallArgBinary => 1,
            HostFunction::CallArgString => 1,
            HostFunction::CallPayment => 1,
            HostFunction::CallContract => 1,
            HostFunction::Base58 => 3,
            HostFunction::ToBase58String => 3,
            HostFunction::ToLeBytes => 3,
            HostFunction::Caller => 3,
            HostFunction::BytesEquals => 2,
            HostFunction::StringEquals => 2,
            HostFunction::Concat => 3,
            HostFunction::TestSetValue => 0,
            HostFunction::TestGetValue => 1,
            HostFunction::TestMemory => 0,
        }
    }
}

/// One entry of a catalogue: a host function with the address under which a
/// guest imports it.
#[derive(Debug)]
pub struct Environment {
    /// The function.
    pub function: HostFunction,
    /// The module of the import.
    pub module: String,
    /// The name of the import.
    pub name: String,
}

impl Environment {
    /// The entry for a host function.
    pub fn new(function: HostFunction) -> (env: Environment)
        ensures
            env.describes(function),
    {
        Environment { function, module: function.module().to_owned(), name: function.name() }
    }

    /// Whether the entry is the one of `function`.
    pub open spec fn describes(self, function: HostFunction) -> bool {
        &&& self.function == function
        &&& self.module@ == function.module_spec()
        &&& self.name@ == function.name_spec()
    }

    /// Whether the entry is addressed by `module` and `name`.
    pub open spec fn answers_to(self, module: Seq<char>, name: Seq<char>) -> bool {
        self.module@ == module && self.name@ == name
    }
}

/// The functions that every guest may import, in catalogue order.
pub open spec fn standard_functions() -> Seq<HostFunction> {
    seq![
        HostFunction::CallArgInt,
        HostFunction::CallArgBool,
        HostFunction::CallArgBinary,
        HostFunction::CallArgString,
        HostFunction::CallPayment,
        HostFunction::CallContract,
        HostFunction::Base58,
        HostFunction::ToBase58String,
        HostFunction::ToLeBytes,
        HostFunction::Caller,
        HostFunction::BytesEquals,
        HostFunction::StringEquals,
        HostFunction::Concat,
    ]
}

/// The probe functions, in catalogue order.
pub open spec fn probe_functions() -> Seq<HostFunction> {
    seq![HostFunction::TestSetValue, HostFunction::TestGetValue, HostFunction::TestMemory]
}

/// Whether a catalogue lists exactly `functions`, in order, each under its
/// own address.
pub open spec fn lists(envs: Seq<Environment>, functions: Seq<HostFunction>) -> bool {
    &&& envs.len() == functions.len()
    &&& forall|i: int| 0 <= i < envs.len() ==> (#[trigger] envs[i]).describes(functions[i])
}

/// Builds a catalogue of the given functions.
pub fn catalogue_of(functions: &[HostFunction]) -> (envs: Vec<Environment>)
    ensures
        lists(envs@, functions@),
{
    let mut envs: Vec<Environment> = Vec::new();
    let mut i: usize = 0;
    while i < functions.len()
        invariant
            i <= functions@.len(),
            lists(envs@, functions@.subrange(0, i as int)),
        decreases functions@.len() - i,
    {
        envs.push(Environment::new(functions[i]));
        i += 1;
    }
    assert(functions@.subrange(0, functions@.len() as int) =~= functions@);
    envs
}

/// The catalogue of the functions that every guest may import.
pub fn envs() -> (envs: Vec<Environment>)
    ensures
        lists(envs@, standard_functions()),
{
    let functions = [
        HostFunction::CallArgInt,
        HostFunction::CallArgBool,
        HostFunction::CallArgBinary,
        HostFunction::CallArgString,
        HostFunction::CallPayment,
        HostFunction::CallContract,
        HostFunction::Base58,
        HostFunction::ToBase58String,
        HostFunction::ToLeBytes,
        HostFunction::Caller,
        HostFunction::BytesEquals,
        HostFunction::StringEquals,
        HostFunction::Concat,
    ];
    assert(functions@ =~= standard_functions());
    catalogue_of(functions.as_slice())
}

/// The catalogue of the probe functions.
pub fn test_envs() -> (envs: Vec<Environment>)
    ensures
        lists(envs@, probe_functions()),
{
    let functions = [
        HostFunction::TestSetValue,
        HostFunction::TestGetValue,
        HostFunction::TestMemory,
    ];
    assert(functions@ =~= probe_functions());
    catalogue_of(functions.as_slice())
}

/// Finds the import that a guest asks for: the place of the first entry of
/// the catalogue with this module and name, or nothing where the catalogue
/// has none.
pub fn find(envs: &Vec<Environment>, module: &str, name: &str) -> (found: Option<usize>)
    ensures
        match found {
            Some(at) => {
                &&& at < envs@.len()
                &&& envs@[at as int].answers_to(module@, name@)
                &&& forall|k: int| 0 <= k < at ==> !(#[trigger] envs@[k]).answers_to(module@, name@)
            },
            None => forall|k: int|
                0 <= k < envs@.len() ==> !(#[trigger] envs@[k]).answers_to(module@, name@),
        },
{
    let mut i: usize = 0;
    while i < envs.len()
        invariant
            i <= envs@.len(),
            forall|k: int| 0 <= k < i ==> !(#[trigger] envs@[k]).answers_to(module@, name@),
        decreases envs@.len() - i,
    {
        if same_text(envs[i].module.as_str(), module) && same_text(envs[i].name.as_str(), name) {
            return Some(i);
        }
        i += 1;
    }
    None
}

} // verus!
