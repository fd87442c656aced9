use vstd::prelude::*;

use crate::dependcy_injection::flags::{get_http_inject_type, inject_type_of, HttpInjectType, TypeShape};
use crate::extensions::str::str_equals;

verus! {

/// What an injection point may receive: configuration, services, the request's context.
pub const INJECT_CONFIG: u8 = 1;

pub const INJECT_SERVICE: u8 = 2;

pub const INJECT_CONTROLLER: u8 = 4;

pub open spec fn has_flag(flags: u8, flag: u8) -> bool {
    flags & flag != 0
}

/// How a parameter of `new`, or a field, is filled.
#[derive(Debug, Clone, Copy, PartialEq, Eq, Structural)]
pub enum InjectionKind {
    /// `Serv<T>`: the service `T`.
    Service,
    /// `CfgRequire<T>`: the configuration `T`, which must be registered.
    RequiredConfig,
    /// `CfgReload<T>`: the reloadable configuration `T`.
    ReloadConfig,
    /// `Cfg<T>`: the configuration `T`, if registered.
    OptionalConfig,
    /// The shared pointer to the request's context.
    HttpContextRef,
}

/// Why a `new` cannot be injected.
#[derive(Debug, Clone, Copy, PartialEq, Eq, Structural)]
pub enum InjectError {
    /// The context is asked for twice.
    HttpContextTwice,
    /// The context is asked for by value or by reference, not by its shared pointer.
    HttpContextNotShared,
    /// The parameter at this index is of no injectable kind.
    NotInjectable(usize),
    /// A controller's `new` does not take the context.
    MissingHttpContext,
    /// `new` is `async`.
    NewIsAsync,
    /// `new` returns neither `Self` nor the type it is implemented for.
    NewNotReturningSelf,
}

impl InjectError {
    /// The message the injection macro reports, for a `new` of the type named `self_name`
    /// whose parameter types read as `param_texts`.
    pub fn message(&self, self_name: &str, param_texts: &Vec<String>) -> (r: String)
        requires
            self matches InjectError::NotInjectable(i) ==> i < param_texts@.len(),
        ensures
            r@ == inject_error_message(*self, self_name@, param_texts@.map_values(|t: String| t@)),
    {
        let fixed = match self {
            InjectError::HttpContextTwice => "Can't inject HttpContextRef more than once",
            InjectError::HttpContextNotShared => "Can't inject HttpContext, use HttpContextRef instead",
            InjectError::NotInjectable(_) => "Field must be Serv<T> (Service), Cfg<T> (optional config), CfgRequire<T> (required config), or CfgReload<T> (reloadable config), found: ",
            InjectError::MissingHttpContext => "`new` fn args must contain HttpContextRef",
            InjectError::NewIsAsync => "fn `new` cannot be async",
            InjectError::NewNotReturningSelf => "fn `new` must return Self or ",
        };
        let mut m = String::from_str(fixed);
        match self {
            InjectError::NotInjectable(i) => {
                m.append(param_texts[*i].as_str());
            },
            InjectError::NewNotReturningSelf => {
                m.append(self_name);
            },
            _ => {},
        }
        m
    }
}

pub open spec fn inject_error_message(e: InjectError, self_name: Seq<char>, param_texts: Seq<Seq<char>>) -> Seq<char> {
    match e {
        InjectError::HttpContextTwice => "Can't inject HttpContextRef more than once"@,
        InjectError::HttpContextNotShared => "Can't inject HttpContext, use HttpContextRef instead"@,
        InjectError::NotInjectable(i) => "Field must be Serv<T> (Service), Cfg<T> (optional config), CfgRequire<T> (required config), or CfgReload<T> (reloadable config), found: "@
            + param_texts[i as int],
        InjectError::MissingHttpContext => "`new` fn args must contain HttpContextRef"@,
        InjectError::NewIsAsync => "fn `new` cannot be async"@,
        InjectError::NewNotReturningSelf => "fn `new` must return Self or "@ + self_name,
    }
}

/// The type a wrapper named `name` holds, when `t` is that wrapper.
pub open spec fn wrapper_inner(t: TypeShape, name: Seq<char>) -> Option<TypeShape> {
    match t {
        TypeShape::Path { name: n, generic: Some(g) } => if n@ == name {
            Some(*g)
        } else {
            None
        },
        _ => None,
    }
}

pub open spec fn is_wrapper(t: TypeShape, name: Seq<char>) -> bool {
    wrapper_inner(t, name) is Some
}

/// Whether `t` is the wrapper named `name` with a type argument.
pub fn is_wrapper_type(t: &TypeShape, name: &str) -> (r: bool)
    ensures
        r == is_wrapper(*t, name@),
{
    match t {
        TypeShape::Path { name: n, generic: Some(_) } => str_equals(n.as_str(), name),
        _ => false,
    }
}

/// The wrapper kind of `t`, tried in the order the macros try them, among the kinds the
/// flags allow.
pub open spec fn wrapper_kind(t: TypeShape, flags: u8) -> Option<InjectionKind> {
    if has_flag(flags, INJECT_SERVICE) && is_wrapper(t, "Serv"@) {
        Some(InjectionKind::Service)
    } else if has_flag(flags, INJECT_CONFIG) && is_wrapper(t, "CfgRequire"@) {
        Some(InjectionKind::RequiredConfig)
    } else if has_flag(flags, INJECT_CONFIG) && is_wrapper(t, "CfgReload"@) {
        Some(InjectionKind::ReloadConfig)
    } else if has_flag(flags, INJECT_CONFIG) && is_wrapper(t, "Cfg"@) {
        Some(InjectionKind::OptionalConfig)
    } else {
        None
    }
}

fn wrapper_kind_of(t: &TypeShape, flags: u8) -> (r: Option<InjectionKind>)
    ensures
        r == wrapper_kind(*t, flags),
{
    if flags & INJECT_SERVICE != 0 && is_wrapper_type(t, "Serv") {
        Some(InjectionKind::Service)
    } else if flags & INJECT_CONFIG != 0 && is_wrapper_type(t, "CfgRequire") {
        Some(InjectionKind::RequiredConfig)
    } else if flags & INJECT_CONFIG != 0 && is_wrapper_type(t, "CfgReload") {
        Some(InjectionKind::ReloadConfig)
    } else if flags & INJECT_CONFIG != 0 && is_wrapper_type(t, "Cfg") {
        Some(InjectionKind::OptionalConfig)
    } else {
        None
    }
}

/// How the parameters of `new` from index `i` on are filled, after `plan` and with
/// `http_seen` telling whether the context was already taken: each parameter in turn is a
/// wrapper the flags allow, or (for a controller) the context, taken once and only by its
/// shared pointer, with other controller parameters left out; anything else is refused.
pub open spec fn plan_from(
    params: Seq<TypeShape>,
    flags: u8,
    i: int,
    http_seen: bool,
    plan: Seq<(usize, InjectionKind)>,
) -> Result<Seq<(usize, InjectionKind)>, InjectError>
    decreases params.len() - i,
{
    if i < 0 || i >= params.len() {
        if has_flag(flags, INJECT_CONTROLLER) && !http_seen {
            Err(InjectError::MissingHttpContext)
        } else {
            Ok(plan)
        }
    } else {
        let t = params[i];
        match wrapper_kind(t, flags) {
            Some(k) => plan_from(params, flags, i + 1, http_seen, plan.push((i as usize, k))),
            None => if has_flag(flags, INJECT_CONTROLLER) {
                let h = inject_type_of(t);
                if h == HttpInjectType::NotInjected {
                    plan_from(params, flags, i + 1, http_seen, plan)
                } else if http_seen {
                    Err(InjectError::HttpContextTwice)
                } else if h == HttpInjectType::ShareMutPtr {
                    plan_from(params, flags, i + 1, true, plan.push((i as usize, InjectionKind::HttpContextRef)))
                } else {
                    Err(InjectError::HttpContextNotShared)
                }
            } else {
                Err(InjectError::NotInjectable(i as usize))
            },
        }
    }
}

/// The parameter at `j` can be filled as `k`: `k` is the wrapper kind the flags allow for
/// it, or `k` is the context and the parameter is the context's shared pointer.
pub open spec fn fills(params: Seq<TypeShape>, flags: u8, j: int, k: InjectionKind) -> bool {
    &&& 0 <= j < params.len()
    &&& if k == InjectionKind::HttpContextRef {
        inject_type_of(params[j]) == HttpInjectType::ShareMutPtr
    } else {
        wrapper_kind(params[j], flags) == Some(k)
    }
}

/// A plan over the parameters before `n`: each entry names a parameter it can fill, in
/// increasing order of parameters, and every wrapper parameter before `n` has an entry.
pub open spec fn plan_sound(params: Seq<TypeShape>, flags: u8, plan: Seq<(usize, InjectionKind)>, n: int) -> bool {
    &&& forall|e: int| 0 <= e < plan.len() ==> (#[trigger] plan[e]).0 < n && fills(params, flags, plan[e].0 as int, plan[e].1)
    &&& forall|a: int, b: int| 0 <= a < b < plan.len() ==> (#[trigger] plan[a]).0 < (#[trigger] plan[b]).0
    &&& forall|j: int| 0 <= j < n && #[trigger] wrapper_kind(params[j], flags) is Some ==> exists|e: int|
        0 <= e < plan.len() && (#[trigger] plan[e]).0 == j
}

proof fn lemma_plan_from_sound(
    params: Seq<TypeShape>,
    flags: u8,
    i: int,
    seen: bool,
    acc: Seq<(usize, InjectionKind)>,
)
    requires
        0 <= i <= params.len(),
        params.len() <= usize::MAX,
        plan_sound(params, flags, acc, i),
    ensures
        plan_from(params, flags, i, seen, acc) matches Ok(plan) ==> plan_sound(params, flags, plan, params.len() as int),
    decreases params.len() - i,
{
    if i < params.len() {
        let t = params[i];
        match wrapper_kind(t, flags) {
            Some(k) => {
                let acc2 = acc.push((i as usize, k));
                assert(plan_sound(params, flags, acc2, i + 1)) by {
                    assert forall|j: int| 0 <= j < i + 1 && #[trigger] wrapper_kind(params[j], flags) is Some implies exists|e: int|
                        0 <= e < acc2.len() && (#[trigger] acc2[e]).0 == j by {
                        if j < i {
                            let e = choose|e: int| 0 <= e < acc.len() && (#[trigger] acc[e]).0 == j;
                            assert(acc2[e] == acc[e]);
                        } else {
                            assert(acc2[acc.len() as int].0 == j);
                        }
                    }
                    assert forall|e: int| 0 <= e < acc2.len() implies (#[trigger] acc2[e]).0 < i + 1 && fills(
                        params,
                        flags,
                        acc2[e].0 as int,
                        acc2[e].1,
                    ) by {
                        if e < acc.len() {
                            assert(acc2[e] == acc[e]);
                        }
                    }
                    assert forall|a: int, b: int| 0 <= a < b < acc2.len() implies (#[trigger] acc2[a]).0 < (
                    #[trigger] acc2[b]).0 by {
                        assert(acc2[a] == acc[a]);
                        if b < acc.len() {
                            assert(acc2[b] == acc[b]);
                        }
                    }
                }
                lemma_plan_from_sound(params, flags, i + 1, seen, acc2);
            },
            None => if has_flag(flags, INJECT_CONTROLLER) {
                let h = inject_type_of(t);
                if h == HttpInjectType::NotInjected {
                    lemma_plan_from_sound(params, flags, i + 1, seen, acc);
                } else if !seen && h == HttpInjectType::ShareMutPtr {
                    let acc2 = acc.push((i as usize, InjectionKind::HttpContextRef));
                    assert(plan_sound(params, flags, acc2, i + 1)) by {
                        assert forall|j: int| 0 <= j < i + 1 && #[trigger] wrapper_kind(params[j], flags) is Some implies exists|e: int|
                            0 <= e < acc2.len() && (#[trigger] acc2[e]).0 == j by {
                            let e = choose|e: int| 0 <= e < acc.len() && (#[trigger] acc[e]).0 == j;
                            assert(acc2[e] == acc[e]);
                        }
                        assert forall|e: int| 0 <= e < acc2.len() implies (#[trigger] acc2[e]).0 < i + 1 && fills(
                            params,
                            flags,
                            acc2[e].0 as int,
                            acc2[e].1,
                        ) by {
                            if e < acc.len() {
                                assert(acc2[e] == acc[e]);
                            }
                        }
                        assert forall|a: int, b: int| 0 <= a < b < acc2.len() implies (#[trigger] acc2[a]).0 < (
                        #[trigger] acc2[b]).0 by {
                            assert(acc2[a] == acc[a]);
                            if b < acc.len() {
                                assert(acc2[b] == acc[b]);
                            }
                        }
                    }
                    lemma_plan_from_sound(params, flags, i + 1, true, acc2);
                }
            } else {
            },
        }
    }
}

/// A plan for the parameters of `new` fills each parameter where it is declared: every
/// entry names a parameter that it can fill (the wrapper kind the flags allow, or the
/// context's shared pointer), the entries follow the parameters' order, and every wrapper
/// parameter has an entry.
pub proof fn lemma_plan_names_parameters(params: Seq<TypeShape>, flags: u8)
    requires
        params.len() <= usize::MAX,
    ensures
        injection_plan(params, flags) matches Ok(plan) ==> {
            &&& forall|e: int|
                0 <= e < plan.len() ==> fills(params, flags, (#[trigger] plan[e]).0 as int, plan[e].1)
            &&& forall|a: int, b: int| 0 <= a < b < plan.len() ==> (#[trigger] plan[a]).0 < (#[trigger] plan[b]).0
            &&& forall|j: int|
                0 <= j < params.len() && #[trigger] wrapper_kind(params[j], flags) is Some ==> exists|e: int|
                    0 <= e < plan.len() && (#[trigger] plan[e]).0 == j
        },
{
    lemma_plan_from_sound(params, flags, 0, false, Seq::empty());
}

/// How the parameters of an injected `new` are filled, or why they cannot be.
pub open spec fn injection_plan(params: Seq<TypeShape>, flags: u8) -> Result<Seq<(usize, InjectionKind)>, InjectError> {
    plan_from(params, flags, 0, false, Seq::empty())
}

/// Works out how to fill the parameters `params` of an injected `new`, as the injection
/// macro does: each wrapper parameter is filled from the services or the configuration,
/// and a controller receives the request's context once, by its shared pointer.
pub fn injection_plan_of(params: &Vec<TypeShape>, flags: u8) -> (r: Result<Vec<(usize, InjectionKind)>, InjectError>)
    ensures
        match r {
            Ok(plan) => injection_plan(params@, flags) == Ok::<Seq<(usize, InjectionKind)>, InjectError>(plan@),
            Err(e) => injection_plan(params@, flags) == Err::<Seq<(usize, InjectionKind)>, InjectError>(e),
        },
{
    let mut plan: Vec<(usize, InjectionKind)> = Vec::new();
    let mut http_seen = false;
    let mut i: usize = 0;
    while i < params.len()
        invariant
            i <= params@.len(),
            injection_plan(params@, flags) == plan_from(params@, flags, i as int, http_seen, plan@),
        decreases params@.len() - i,
    {
        let t = &params[i];
        match wrapper_kind_of(t, flags) {
            Some(k) => {
                plan.push((i, k));
            },
            None => {
                if flags & INJECT_CONTROLLER != 0 {
                    let h = get_http_inject_type(t);
                    if h == HttpInjectType::NotInjected {
                    } else if http_seen {
                        return Err(InjectError::HttpContextTwice);
                    } else if h == HttpInjectType::ShareMutPtr {
                        http_seen = true;
                        plan.push((i, InjectionKind::HttpContextRef));
                    } else {
                        return Err(InjectError::HttpContextNotShared);
                    }
                } else {
                    return Err(InjectError::NotInjectable(i));
                }
            },
        }
        i = i + 1;
    }
    if flags & INJECT_CONTROLLER != 0 && !http_seen {
        return Err(InjectError::MissingHttpContext);
    }
    Ok(plan)
}

/// The `fn new` of an impl block that injection fills.
pub struct NewFnShape {
    pub is_async: bool,
    /// Its return type, when it names one.
    pub return_type: Option<TypeShape>,
    pub params: Vec<TypeShape>,
}

/// Whether a return type is `Self` or the type named `self_name`.
pub open spec fn returns_self(ret: Option<TypeShape>, self_name: Seq<char>) -> bool {
    match ret {
        Some(TypeShape::Path { name, .. }) => name@ == "Self"@ || name@ == self_name,
        _ => false,
    }
}

/// How injection fills the `new` of the type named `self_name`: a `new` that is `async`,
/// or that returns neither `Self` nor that type, is refused; otherwise its parameters are
/// planned as `injection_plan` says.
pub open spec fn new_fn_plan(
    is_async: bool,
    return_type: Option<TypeShape>,
    params: Seq<TypeShape>,
    self_name: Seq<char>,
    flags: u8,
) -> Result<Seq<(usize, InjectionKind)>, InjectError> {
    if is_async {
        Err(InjectError::NewIsAsync)
    } else if !returns_self(return_type, self_name) {
        Err(InjectError::NewNotReturningSelf)
    } else {
        injection_plan(params, flags)
    }
}

/// Checks the `new` of the type named `self_name` and works out how injection fills it.
pub fn inject_new_fn(new_fn: &NewFnShape, self_name: &str, flags: u8) -> (r: Result<Vec<(usize, InjectionKind)>, InjectError>)
    ensures
        match r {
            Ok(plan) => new_fn_plan(new_fn.is_async, new_fn.return_type, new_fn.params@, self_name@, flags) == Ok::<
                Seq<(usize, InjectionKind)>,
                InjectError,
            >(plan@),
            Err(e) => new_fn_plan(new_fn.is_async, new_fn.return_type, new_fn.params@, self_name@, flags) == Err::<
                Seq<(usize, InjectionKind)>,
                InjectError,
            >(e),
        },
{
    if new_fn.is_async {
        return Err(InjectError::NewIsAsync);
    }
    let returns_ok = match &new_fn.return_type {
        Some(TypeShape::Path { name, .. }) => str_equals(name.as_str(), "Self") || str_equals(name.as_str(), self_name),
        _ => false,
    };
    if !returns_ok {
        return Err(InjectError::NewNotReturningSelf);
    }
    injection_plan_of(&new_fn.params, flags)
}

/// The shape of the type a service is derived for.
pub enum StructShape {
    /// A struct with named fields, by their types.
    Named(Vec<TypeShape>),
    /// A struct without fields.
    Unit,
    /// A tuple struct.
    Tuple,
    /// An enum or a union.
    NotStruct,
}

/// The wrapper kind of a field of a derived service: any of the four wrappers.
pub open spec fn field_kind(t: TypeShape) -> Option<InjectionKind> {
    wrapper_kind(t, (INJECT_SERVICE | INJECT_CONFIG) as u8)
}

/// The index of the first field that is none of the four wrappers.
pub open spec fn first_plain_field(fields: Seq<TypeShape>) -> Option<int>
    decreases fields.len(),
{
    if fields.len() == 0 {
        None
    } else if field_kind(fields[0]) is None {
        Some(0)
    } else {
        match first_plain_field(fields.drop_first()) {
            Some(i) => Some(i + 1),
            None => None,
        }
    }
}

proof fn lemma_first_plain_field_at(f: Seq<TypeShape>, i: int)
    requires
        0 <= i < f.len(),
        field_kind(f[i]) is None,
        forall|k: int| 0 <= k < i ==> field_kind(#[trigger] f[k]) is Some,
    ensures
        first_plain_field(f) == Some(i),
    decreases i,
{
    if i > 0 {
        let rest = f.drop_first();
        assert forall|k: int| 0 <= k < i - 1 implies field_kind(#[trigger] rest[k]) is Some by {
            assert(rest[k] == f[k + 1]);
        }
        assert(rest[i - 1] == f[i]);
        lemma_first_plain_field_at(rest, i - 1);
        assert(field_kind(f[0]) is Some);
    }
}

proof fn lemma_no_plain_field(f: Seq<TypeShape>)
    requires
        forall|k: int| 0 <= k < f.len() ==> field_kind(#[trigger] f[k]) is Some,
    ensures
        first_plain_field(f) is None,
    decreases f.len(),
{
    if f.len() > 0 {
        let rest = f.drop_first();
        assert forall|k: int| 0 <= k < rest.len() implies field_kind(#[trigger] rest[k]) is Some by {
            assert(rest[k] == f[k + 1]);
        }
        lemma_no_plain_field(rest);
        assert(field_kind(f[0]) is Some);
    }
}

/// Why a service cannot be derived for a type.
#[derive(Debug, Clone, Copy, PartialEq, Eq, Structural)]
pub enum DeriveError {
    NotStruct,
    TupleStruct,
    /// The field at this index is none of `Serv<T>`, `Cfg<T>`, `CfgRequire<T>` and
    /// `CfgReload<T>`.
    NotInjectableField(usize),
}

/// How deriving a service fills the fields of a struct of shape `s`: every named field
/// must be one of the four wrappers, and is filled by its kind, in order; otherwise the
/// first field that is not is refused, as are tuple structs and other types.
pub fn derived_field_kinds(s: &StructShape) -> (r: Result<Vec<InjectionKind>, DeriveError>)
    ensures
        match *s {
            StructShape::Named(fields) => match first_plain_field(fields@) {
                Some(i) => r is Err && r->Err_0 is NotInjectableField && r->Err_0->NotInjectableField_0 == i,
                None => r matches Ok(kinds) && kinds@.len() == fields@.len() && forall|i: int|
                    0 <= i < fields@.len() ==> field_kind(#[trigger] fields@[i]) == Some(kinds@[i]),
            },
            StructShape::Unit => r matches Ok(kinds) && kinds@.len() == 0,
            StructShape::Tuple => r == Err::<Vec<InjectionKind>, DeriveError>(DeriveError::TupleStruct),
            StructShape::NotStruct => r == Err::<Vec<InjectionKind>, DeriveError>(DeriveError::NotStruct),
        },
{
    match s {
        StructShape::Named(fields) => {
            let mut kinds: Vec<InjectionKind> = Vec::new();
            let mut i: usize = 0;
            while i < fields.len()
                invariant
                    *s == StructShape::Named(*fields),
                    i <= fields@.len(),
                    kinds@.len() == i,
                    forall|j: int| 0 <= j < i ==> field_kind(#[trigger] fields@[j]) == Some(kinds@[j]),
                decreases fields@.len() - i,
            {
                match wrapper_kind_of(&fields[i], INJECT_SERVICE | INJECT_CONFIG) {
                    Some(k) => {
                        kinds.push(k);
                    },
                    None => {
                        proof {
                            lemma_first_plain_field_at(fields@, i as int);
                        }
                        return Err(DeriveError::NotInjectableField(i));
                    },
                }
                i = i + 1;
            }
            proof {
                lemma_no_plain_field(fields@);
            }
            Ok(kinds)
        },
        StructShape::Unit => Ok(Vec::new()),
        StructShape::Tuple => Err(DeriveError::TupleStruct),
        StructShape::NotStruct => Err(DeriveError::NotStruct),
    }
}

} // verus!
