use vstd::prelude::*;

verus! {

/// Shared state handed to every deserializer of one deserialization run.
#[derive(Debug)]
pub struct Context {}

impl Context {
    pub fn new() -> (r: Context) {
        Context {  }
    }
}

/// A deserializer over a value that already gives access to an object's
/// entries: it hands the whole value on to the visitor as one object.
#[derive(Debug)]
pub struct ObjectAccessDeserializer<'a, T> {
    context: &'a Context,
    value: T,
}

impl<'a, T> ObjectAccessDeserializer<'a, T> {
    pub closed spec fn spec_context(&self) -> &'a Context {
        self.context
    }

    pub closed spec fn spec_value(&self) -> T {
        self.value
    }

    #[must_use]
    pub fn new(context: &'a Context, value: T) -> (r: Self)
        ensures
            r.spec_context() == context,
            r.spec_value() == value,
    {
        Self { context, value }
    }

    pub fn context(&self) -> (r: &Context)
        ensures
            r == self.spec_context(),
    {
        self.context
    }

    /// Gives up the deserializer and returns the object access it wrapped.
    pub fn into_value(self) -> (r: T)
        ensures
            r == self.spec_value(),
    {
        self.value
    }
}

} // verus!
