//! A tri-state wrapper for message fields that are either explicitly absent,
//! explicitly present with a value, or left for the runtime to fill in later.
//!
//! `Known(None)` means the field definitely has no value, `Known(Some(v))`
//! means the field carries `v`, and `Defer` means the component responsible
//! (the id allocator, or the envelope builder) must resolve the field exactly
//! once, just before the message is written.

use vstd::prelude::*;

verus! {

/// A value that is absent, present, or still to be decided by the runtime.
#[derive(Debug, Clone, Copy)]
pub enum Id<T> {
    /// The field is decided: either absent (`None`) or present with a value.
    Known(Option<T>),
    /// The field is not yet decided; the runtime fills it in before sending.
    Defer,
}

impl<T> Id<T> {
    /// True when the field still awaits resolution.
    pub open spec fn is_deferred(self) -> bool {
        self is Defer
    }

    /// True when the field is decided and carries a value.
    pub open spec fn is_present(self) -> bool {
        match self {
            Id::Known(v) => v is Some,
            Id::Defer => false,
        }
    }

    /// The decided value of a field, once no resolution is pending.
    pub open spec fn decided(self) -> Option<T>
        recommends !self.is_deferred(),
    {
        match self {
            Id::Known(v) => v,
            Id::Defer => None,
        }
    }

    /// When self is `Defer`, substitute the provided value.
    pub fn coalesce(self, val: Id<T>) -> (r: Self)
        ensures
            r == if self is Defer { val } else { self },
    {
        match self {
            Id::Defer => val,
            _ => self,
        }
    }

    /// When self is `Defer`, substitute the provided value by calling `coalesce_fn`.
    pub fn else_coalesce<F: Fn() -> Id<T>>(self, coalesce_fn: F) -> (r: Self)
        requires
            self is Defer ==> coalesce_fn.requires(()),
        ensures
            self is Defer ==> coalesce_fn.ensures((), r),
            !(self is Defer) ==> r == self,
    {
        match self {
            Id::Defer => coalesce_fn(),
            _ => self,
        }
    }

    /// Collapse to a plain optional value, reading `Defer` as "no value yet".
    pub fn into_option(self) -> (r: Option<T>)
        ensures
            r == self.decided(),
            self is Defer ==> r is None,
    {
        match self {
            Id::Known(value) => value,
            Id::Defer => None,
        }
    }

    /// Wrap a plain optional value as a decided field.
    pub fn from_option(value: Option<T>) -> (r: Self)
        ensures
            r == Id::Known(value),
    {
        Id::Known(value)
    }
}

} // verus!
