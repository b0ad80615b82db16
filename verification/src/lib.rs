use vstd::prelude::*;

pub mod headers;
pub mod text;

verus! {

/// A wrapper around a value that was read back from its serialized form.
#[derive(Debug)]
pub struct De<T> {
    v: T,
}

impl<T> De<T> {
    /// The value held by this wrapper.
    pub closed spec fn value(self) -> T {
        self.v
    }

    /// Wraps a value.
    pub fn new(v: T) -> (res: Self)
        ensures
            res.value() == v,
    {
        De { v: v }
    }

    /// Consumes this wrapper, returning the deserialized value.
    pub fn into_inner(self) -> (res: T)
        ensures
            res == self.value(),
    {
        self.v
    }
}

/// A wrapper around a value that is to be serialized, by reference, with
/// the choice of plain or pretty output.
#[derive(Debug)]
pub struct Ser<'a, T: 'a> {
    v: &'a T,
    pretty: bool,
}

impl<'a, T> Ser<'a, T> {
    /// The value to be serialized.
    pub closed spec fn value(self) -> T {
        *self.v
    }

    /// Whether pretty output was asked for.
    pub closed spec fn is_pretty(self) -> bool {
        self.pretty
    }

    /// Returns a new `Ser` wrapper, in plain mode.
    pub fn new(value: &'a T) -> (res: Self)
        ensures
            res.value() == *value,
            !res.is_pretty(),
    {
        Ser { v: value, pretty: false }
    }

    /// Returns a new `Ser` wrapper, in pretty mode: header lines that are
    /// UTF-8 text are written as strings rather than as byte sequences.
    pub fn new_pretty(value: &'a T) -> (res: Self)
        ensures
            res.value() == *value,
            res.is_pretty(),
    {
        Ser { v: value, pretty: true }
    }

    /// The value to be serialized.
    pub fn get(&self) -> (v: &'a T)
        ensures
            *v == self.value(),
    {
        self.v
    }

    /// Whether pretty output was asked for.
    pub fn pretty(&self) -> (p: bool)
        ensures
            p == self.is_pretty(),
    {
        self.pretty
    }
}

/// A convenience wrapper to be used as a type parameter, for example when a
/// `Vec<T>` needs to be passed to serde.
#[derive(Clone, PartialEq)]
pub struct Serde<T>(pub T);

impl<T> Serde<T> {
    /// Consumes this wrapper, returning the inner value.
    pub fn into_inner(self) -> (res: T)
        ensures
            res == self.0,
    {
        self.0
    }
}

impl<T> std::ops::Deref for Serde<T> {
    type Target = T;

    /// The inner value.
    fn deref(&self) -> (r: &T)
        ensures
            *r == self.0,
    {
        &self.0
    }
}

} // verus!
