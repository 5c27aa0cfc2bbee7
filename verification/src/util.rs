//! Small shared helpers: boolean selection, and typed references to records
//! of a named table.
use vstd::prelude::*;

verus! {

/// Selecting one of two values by a boolean.
pub trait BooleanWhy: Sized {
    /// Whether this value selects the first alternative.
    spec fn truthy(self) -> bool;

    /// `val1` where `self` holds, else `val2`.
    fn why<T>(self, val1: T, val2: T) -> (r: T)
        ensures
            r == if self.truthy() {
                val1
            } else {
                val2
            },
    ;

    /// Calls and returns `val1()` where `self` holds, else `val2()`.
    fn why_fn<T, F1: Fn() -> T, F2: Fn() -> T>(self, val1: F1, val2: F2) -> (r: T)
        requires
            self.truthy() ==> val1.requires(()),
            !self.truthy() ==> val2.requires(()),
        ensures
            self.truthy() ==> val1.ensures((), r),
            !self.truthy() ==> val2.ensures((), r),
    ;
}

impl BooleanWhy for bool {
    open spec fn truthy(self) -> bool {
        self
    }

    fn why<T>(self, val1: T, val2: T) -> (r: T) {
        if self {
            val1
        } else {
            val2
        }
    }

    fn why_fn<T, F1: Fn() -> T, F2: Fn() -> T>(self, val1: F1, val2: F2) -> (r: T) {
        if self {
            val1()
        } else {
            val2()
        }
    }
}

/// A record type stored in a named table.
pub trait Referrable {
    /// The table's name.
    spec fn spec_table() -> Seq<char>;
}

/// A record type whose rows carry an id of their own.
pub trait ReferrableWithId: Referrable {
    type Id;

    /// The id of this row.
    spec fn spec_id(&self) -> Self::Id;

    /// The id of this row.
    fn id(&self) -> (r: &Self::Id)
        ensures
            *r == self.spec_id(),
    ;
}

/// A typed reference to a row of `T`'s table: just the id, with the table
/// known from the type.
pub struct Ref<T: ReferrableWithId> {
    id: T::Id,
}

impl<T: ReferrableWithId> Ref<T> {
    /// The id this reference points at.
    pub closed spec fn spec_id(&self) -> T::Id {
        self.id
    }

    fn _new(id: T::Id) -> (r: Self)
        ensures
            r.spec_id() == id,
    {
        Ref { id }
    }

    /// A reference to the row with this id.
    pub fn new_id(id: T::Id) -> (r: Self)
        ensures
            r.spec_id() == id,
    {
        Self::_new(id)
    }

    /// The id, borrowed.
    pub fn just_id(&self) -> (r: &T::Id)
        ensures
            *r == self.spec_id(),
    {
        &self.id
    }

    /// The id, taking the reference apart.
    pub fn into_id(self) -> (r: T::Id)
        ensures
            r == self.spec_id(),
    {
        self.id
    }

    /// The id, borrowed.
    pub fn id(&self) -> (r: &T::Id)
        ensures
            *r == self.spec_id(),
    {
        &self.id
    }
}

} // verus!
