//! Values that the session store writes as strings although they hold other
//! data: a JSON document inside a string, or a value in its text form.
use vstd::prelude::*;

verus! {

/// A value that is stored as a string holding its JSON text.
#[derive(Debug, Default, Clone, PartialEq, Eq)]
pub struct JSONString<T>(pub T);

impl<T> JSONString<T> {
    pub fn into_inner(self) -> (r: T)
        ensures
            r == self.0,
    {
        self.0
    }
}

/// A value that is stored as a string holding its JSON text, where the text
/// might not hold such a value: then the text itself is kept.
#[derive(Debug, Clone, PartialEq, Eq)]
pub enum FallibleJSONString<T> {
    Text(String),
    Data(T),
}

impl<T> FallibleJSONString<T> {
    /// The value, or this unchanged where only the text is known.
    pub fn get_data(self) -> (r: Result<T, Self>)
        ensures
            self matches FallibleJSONString::Data(v) ==> r == Ok::<T, Self>(v),
            self is Text ==> r == Err::<T, Self>(self),
    {
        match self {
            FallibleJSONString::Data(value) => Ok(value),
            FallibleJSONString::Text(text) => Err(FallibleJSONString::Text(text)),
        }
    }
}

/// A value that is stored in its text form.
#[derive(Debug, Default, Clone, PartialEq, Eq)]
pub struct ParseAsStr<T>(pub T);

impl<T> ParseAsStr<T> {
    pub fn into_inner(self) -> (r: T)
        ensures
            r == self.0,
    {
        self.0
    }
}

} // verus!
