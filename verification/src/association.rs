//! The association runtime: a value representing "how to obtain a foreign
//! key for this relationship", resolved exactly once, at the moment the
//! owning factory is inserted.

use vstd::prelude::*;

verus! {

/// The pending or resolved state of a foreign-key relationship, generic
/// over the associated record's key and its factory type.  The owning
/// factory exclusively owns its associations until insertion; resolution
/// consumes them, so none can be resolved twice.
pub enum Association<K, F> {
    /// No override was given: at insert time, build the associated
    /// record with its type's default factory.
    Unbuilt,
    /// A fully-configured factory for the associated record: at insert
    /// time, insert it and take the resulting key.
    PendingFactory(F),
    /// A reference to an already-persisted record: its key is used
    /// directly, without any insert.
    ExistingRecord(K),
}

impl<K, F> core::default::Default for Association<K, F> {
    /// A relationship field left alone resolves through the associated
    /// type's default factory.
    fn default() -> (r: Self)
        ensures
            r is Unbuilt,
    {
        Association::Unbuilt
    }
}

/// What resolving an association demands: either the key is already at
/// hand, or exactly one associated record must be inserted first and its
/// newly generated key used.
pub enum ResolveAction<K, F> {
    UseKey(K),
    InsertDefaultFirst,
    InsertPendingFirst(F),
}

impl<K, F> core::convert::From<F> for Association<K, F> {
    /// A relationship setter accepts a fully-configured associated
    /// factory: it wraps into the pending variant, to be inserted when
    /// the owning factory is.  The existing-record direction has no
    /// `From` of its own — a second blanket conversion, from the key
    /// type, would collide with this one where the two type parameters
    /// coincide — so [`Association::from_existing`] wraps it instead.
    fn from(factory: F) -> Self {
        Association::PendingFactory(factory)
    }
}

impl<K, F> vstd::std_specs::convert::FromSpecImpl<F> for Association<K, F> {
    open spec fn obeys_from_spec() -> bool {
        true
    }

    open spec fn from_spec(factory: F) -> Self {
        Association::PendingFactory(factory)
    }
}

impl<K, F> Association<K, F> {
    /// Wraps a fully-configured associated factory: resolution will
    /// insert it and use the resulting key.
    pub fn from_factory(factory: F) -> (a: Self)
        ensures
            a matches Association::PendingFactory(f) && f == factory,
    {
        Association::PendingFactory(factory)
    }

    /// Wraps a reference to an already-persisted record's key:
    /// resolution uses it directly and inserts nothing.
    pub fn from_existing(key: K) -> (a: Self)
        ensures
            a matches Association::ExistingRecord(k) && k == key,
    {
        Association::ExistingRecord(key)
    }

    /// Decides how this association is resolved.  An existing record's
    /// key is used directly and never triggers an insert; a pending or
    /// unbuilt association requires exactly one insert of the associated
    /// record before its key exists.  Resolution consumes the
    /// association.
    pub fn resolve_step(self) -> (a: ResolveAction<K, F>)
        ensures
            match self {
                Association::Unbuilt => a is InsertDefaultFirst,
                Association::PendingFactory(f) => a matches ResolveAction::InsertPendingFirst(f2)
                    && f2 == f,
                Association::ExistingRecord(k) => a matches ResolveAction::UseKey(k2) && k2 == k,
            },
    {
        match self {
            Association::Unbuilt => ResolveAction::InsertDefaultFirst,
            Association::PendingFactory(f) => ResolveAction::InsertPendingFirst(f),
            Association::ExistingRecord(k) => ResolveAction::UseKey(k),
        }
    }
}

/// A record type's canonical default factory: `Record::factory()` yields
/// the bound factory type's default instance, the start of a fluent
/// builder chain.  The synthesized binding implements this trait once
/// per record type.
pub trait DefaultFactory<T: core::default::Default> {
    /// Yields exactly what the factory type's `Default` yields, with no
    /// side effects.
    fn factory() -> (t: T)
        ensures
            call_ensures(T::default, (), t),
    {
        T::default()
    }
}

} // verus!
