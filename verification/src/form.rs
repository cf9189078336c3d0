//! Form handling: the posted parameters and the response bodies built
//! from them. Building the body is a pure transform; receiving the post
//! and sending the response belong to the HTTP layer.

use vstd::prelude::*;

verus! {

/// The parameters a client posts through the form.
pub struct MyParams {
    /// The name the client filled in.
    pub name: String,
}

/// The greeting body for a posted name.
pub open spec fn greeting_view(name: Seq<char>) -> Seq<char> {
    "Your name is "@ + name
}

/// The greeting body that also reports the application state.
pub open spec fn greeting_with_state_view(name: Seq<char>, foo: Seq<char>) -> Seq<char> {
    "Your name is "@ + name + ", and in AppState I have foo: "@ + foo
}

/// Build the plain greeting for a posted form.
pub fn greeting(params: &MyParams) -> (r: String)
    ensures
        r@ == greeting_view(params.name@),
{
    let mut r = String::from_str("Your name is ");
    r.append(params.name.as_str());
    r
}

/// Build the greeting that also shows the application state value.
pub fn greeting_with_state(params: &MyParams, foo: &str) -> (r: String)
    ensures
        r@ == greeting_with_state_view(params.name@, foo@),
{
    let mut r = String::from_str("Your name is ");
    r.append(params.name.as_str());
    r.append(", and in AppState I have foo: ");
    r.append(foo);
    r
}

} // verus!
