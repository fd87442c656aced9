use vstd::prelude::*;

use crate::extensions::str::str_equals;

verus! {

/// An item of the impl block a middleware is declared with: whether it is a function, and
/// its name.
pub struct ImplItemShape {
    pub is_fn: bool,
    pub name: String,
}

/// Why an impl block cannot declare a middleware.
#[derive(Debug, Clone, Copy, PartialEq, Eq, Structural)]
pub enum MiddlewareError {
    /// The block is not implemented for a struct named by a path.
    NotStructImpl,
    /// The block has no `invoke_async` function.
    MissingInvokeAsync,
}

impl MiddlewareError {
    pub fn message(&self) -> (r: &'static str)
        ensures
            r@ == middleware_error_message(*self),
    {
        match self {
            MiddlewareError::NotStructImpl => "#[middleware] only usable on struct impl blocks",
            MiddlewareError::MissingInvokeAsync => "#[middleware] requires the `invoke_async` function",
        }
    }
}

pub open spec fn middleware_error_message(e: MiddlewareError) -> Seq<char> {
    match e {
        MiddlewareError::NotStructImpl => "#[middleware] only usable on struct impl blocks"@,
        MiddlewareError::MissingInvokeAsync => "#[middleware] requires the `invoke_async` function"@,
    }
}

/// How a middleware is generated from its impl block: the name of its service wrapper,
/// the `invoke_async` that becomes the wrapper's body, and the other items, kept as they
/// are, by their positions.
pub struct MiddlewarePlan {
    pub service_name: String,
    pub invoke_index: usize,
    pub kept_items: Vec<usize>,
}

pub open spec fn is_invoke(item: ImplItemShape) -> bool {
    item.is_fn && item.name@ == "invoke_async"@
}

/// The position of the first `invoke_async` function among `items`.
pub open spec fn first_invoke(items: Seq<ImplItemShape>) -> Option<int>
    decreases items.len(),
{
    if items.len() == 0 {
        None
    } else if is_invoke(items[0]) {
        Some(0)
    } else {
        match first_invoke(items.drop_first()) {
            Some(i) => Some(i + 1),
            None => None,
        }
    }
}

/// The positions, in order, of the first `n` items that are not `invoke_async` functions.
pub open spec fn kept_indices(items: Seq<ImplItemShape>, n: int) -> Seq<usize>
    decreases n,
{
    if n <= 0 {
        Seq::empty()
    } else if is_invoke(items[n - 1]) {
        kept_indices(items, n - 1)
    } else {
        kept_indices(items, n - 1).push((n - 1) as usize)
    }
}

proof fn lemma_first_invoke_at(items: Seq<ImplItemShape>, i: int)
    requires
        0 <= i < items.len(),
        is_invoke(items[i]),
        forall|k: int| 0 <= k < i ==> !is_invoke(#[trigger] items[k]),
    ensures
        first_invoke(items) == Some(i),
    decreases i,
{
    if i > 0 {
        let rest = items.drop_first();
        assert forall|k: int| 0 <= k < i - 1 implies !is_invoke(#[trigger] rest[k]) by {
            assert(rest[k] == items[k + 1]);
        }
        assert(rest[i - 1] == items[i]);
        lemma_first_invoke_at(rest, i - 1);
        assert(!is_invoke(items[0]));
    }
}

proof fn lemma_no_invoke(items: Seq<ImplItemShape>)
    requires
        forall|k: int| 0 <= k < items.len() ==> !is_invoke(#[trigger] items[k]),
    ensures
        first_invoke(items) is None,
    decreases items.len(),
{
    if items.len() > 0 {
        let rest = items.drop_first();
        assert forall|k: int| 0 <= k < rest.len() implies !is_invoke(#[trigger] rest[k]) by {
            assert(rest[k] == items[k + 1]);
        }
        lemma_no_invoke(rest);
        assert(!is_invoke(items[0]));
    }
}

/// Whether the item is a function named `invoke_async`.
fn is_invoke_item(item: &ImplItemShape) -> (r: bool)
    ensures
        r == is_invoke(*item),
{
    item.is_fn && str_equals(item.name.as_str(), "invoke_async")
}

/// Works out the middleware that the impl block for the struct named `self_name` (`None`
/// when the block is not implemented for a type named by a path) with `items` declares:
/// its service is named after the struct with `Service` appended, its first
/// `invoke_async` function becomes the service's body, and every item but the
/// `invoke_async` functions is kept.
pub fn middleware_plan(self_name: Option<&str>, items: &Vec<ImplItemShape>) -> (r: Result<MiddlewarePlan, MiddlewareError>)
    ensures
        match self_name {
            None => r == Err::<MiddlewarePlan, MiddlewareError>(MiddlewareError::NotStructImpl),
            Some(name) => match first_invoke(items@) {
                None => r == Err::<MiddlewarePlan, MiddlewareError>(MiddlewareError::MissingInvokeAsync),
                Some(i) => r matches Ok(plan) && plan.service_name@ == name@ + "Service"@ && plan.invoke_index
                    == i && plan.kept_items@ == kept_indices(items@, items@.len() as int),
            },
        },
{
    let name = match self_name {
        Some(n) => n,
        None => {
            return Err(MiddlewareError::NotStructImpl);
        },
    };
    let mut invoke: Option<usize> = None;
    let mut kept: Vec<usize> = Vec::new();
    let mut i: usize = 0;
    while i < items.len()
        invariant
            i <= items@.len(),
            kept@ == kept_indices(items@, i as int),
            match invoke {
                Some(j) => j < i && is_invoke(items@[j as int]) && forall|k: int|
                    0 <= k < j ==> !is_invoke(#[trigger] items@[k]),
                None => forall|k: int| 0 <= k < i ==> !is_invoke(#[trigger] items@[k]),
            },
        decreases items@.len() - i,
    {
        if is_invoke_item(&items[i]) {
            if invoke.is_none() {
                invoke = Some(i);
            }
        } else {
            kept.push(i);
        }
        i = i + 1;
    }
    match invoke {
        Some(j) => {
            proof {
                lemma_first_invoke_at(items@, j as int);
            }
            let mut service_name = String::from_str(name);
            service_name.append("Service");
            Ok(MiddlewarePlan { service_name, invoke_index: j, kept_items: kept })
        },
        None => {
            proof {
                lemma_no_invoke(items@);
            }
            Err(MiddlewareError::MissingInvokeAsync)
        },
    }
}

} // verus!
