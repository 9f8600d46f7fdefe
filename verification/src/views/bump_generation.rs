//! The freshness tracker: a generation that every change of context bumps,
//! and the generation at which the views were last rebuilt.

use vstd::prelude::*;

verus! {

/// The views were built under a context that has changed since.
#[derive(Debug, Clone, Copy, PartialEq, Eq, Structural)]
pub struct Stale;

/// The generation counter cannot be raised any further.
#[derive(Debug, Clone, Copy, PartialEq, Eq, Structural)]
pub struct GenerationExhausted;

/// The two generations. The views are never newer than the context.
#[derive(Debug, Clone, Copy)]
pub struct FreshnessMeta {
    generation: i64,
    last_refresh_generation: i64,
    views_initialized: bool,
}

/// The freshness record as mathematics.
pub struct FreshnessView {
    pub generation: int,
    pub last_refresh_generation: int,
    pub views_initialized: bool,
}

/// Whether the views are out of date.
pub open spec fn is_stale(m: FreshnessView) -> bool {
    m.generation != m.last_refresh_generation
}

/// The record after a change of context.
pub open spec fn bumped(m: FreshnessView) -> FreshnessView {
    FreshnessView { generation: m.generation + 1, ..m }
}

/// The record after the views were rebuilt.
pub open spec fn refreshed(m: FreshnessView) -> FreshnessView {
    FreshnessView {
        generation: m.generation,
        last_refresh_generation: m.generation,
        views_initialized: true,
    }
}

/// Whether a record is one that this library keeps: the views are not newer
/// than the context.
pub open spec fn well_formed(m: FreshnessView) -> bool {
    m.last_refresh_generation <= m.generation
}

/// After a change of context the views are out of date, and they stay so
/// through any number of further changes, until they are rebuilt.
pub proof fn lemma_stale_until_refresh(m: FreshnessView, changes: nat)
    requires
        well_formed(m),
    ensures
        well_formed(bumped_times(m, changes)),
        changes > 0 ==> is_stale(bumped_times(m, changes)),
        !is_stale(refreshed(bumped_times(m, changes))),
        well_formed(refreshed(bumped_times(m, changes))),
    decreases changes,
{
    if changes > 0 {
        lemma_stale_until_refresh(m, (changes - 1) as nat);
    }
}

/// The record after `changes` changes of context.
pub open spec fn bumped_times(m: FreshnessView, changes: nat) -> FreshnessView
    decreases changes,
{
    if changes == 0 {
        m
    } else {
        bumped(bumped_times(m, (changes - 1) as nat))
    }
}

impl View for FreshnessMeta {
    type V = FreshnessView;

    closed spec fn view(&self) -> FreshnessView {
        FreshnessView {
            generation: self.generation as int,
            last_refresh_generation: self.last_refresh_generation as int,
            views_initialized: self.views_initialized,
        }
    }
}

impl FreshnessMeta {
    #[verifier::type_invariant]
    spec fn inv(&self) -> bool {
        self.last_refresh_generation <= self.generation
    }

    /// The record of a new database: generation zero, views built at
    /// generation zero, never initialized.
    pub fn new() -> (r: Self)
        ensures
            r@ == (FreshnessView {
                generation: 0,
                last_refresh_generation: 0,
                views_initialized: false,
            }),
    {
        FreshnessMeta { generation: 0, last_refresh_generation: 0, views_initialized: false }
    }

    /// The record with the values that a database stored, if they are such as
    /// this library stores: the views not newer than the context.
    pub fn from_stored(generation: i64, last_refresh_generation: i64, views_initialized: bool) -> (r:
        Option<Self>)
        ensures
            last_refresh_generation <= generation ==> r is Some && r->0@ == (FreshnessView {
                generation: generation as int,
                last_refresh_generation: last_refresh_generation as int,
                views_initialized,
            }),
            last_refresh_generation > generation ==> r is None,
    {
        if last_refresh_generation <= generation {
            Some(FreshnessMeta { generation, last_refresh_generation, views_initialized })
        } else {
            None
        }
    }

    /// Every record is well formed.
    pub fn generation(&self) -> (r: i64)
        ensures
            r == self@.generation,
            well_formed(self@),
    {
        proof {
            use_type_invariant(self);
        }
        self.generation
    }

    /// The generation at which the views were last rebuilt.
    pub fn last_refresh_generation(&self) -> (r: i64)
        ensures
            r == self@.last_refresh_generation,
            well_formed(self@),
    {
        proof {
            use_type_invariant(self);
        }
        self.last_refresh_generation
    }

    /// Whether the views were ever built.
    pub fn views_initialized(&self) -> (r: bool)
        ensures
            r == self@.views_initialized,
    {
        self.views_initialized
    }

    /// Notes that the views were rebuilt under the present context.
    pub fn mark_refreshed(&mut self)
        ensures
            final(self)@ == refreshed(old(self)@),
    {
        *self = FreshnessMeta {
            generation: self.generation,
            last_refresh_generation: self.generation,
            views_initialized: true,
        };
    }
}

/// Notes a change of context: the generation goes up by one.
///
/// Fails, changing nothing, only when the generation is the greatest there
/// is.
pub fn bump_generation(meta: &mut FreshnessMeta) -> (r: Result<(), GenerationExhausted>)
    ensures
        old(meta)@.generation < i64::MAX ==> r is Ok && final(meta)@ == bumped(old(meta)@),
        old(meta)@.generation >= i64::MAX ==> r is Err && final(meta)@ == old(meta)@,
        r is Ok ==> is_stale(final(meta)@),
{
    let generation = meta.generation();
    let last = meta.last_refresh_generation();
    let init = meta.views_initialized();
    if generation == i64::MAX {
        return Err(GenerationExhausted);
    }
    match FreshnessMeta::from_stored(generation + 1, last, init) {
        Some(next) => {
            *meta = next;
            Ok(())
        },
        None => Err(GenerationExhausted),
    }
}

/// Succeeds exactly when the views were built under the present context.
pub fn assert_fresh(meta: &FreshnessMeta) -> (r: Result<(), Stale>)
    ensures
        r is Err <==> is_stale(meta@),
{
    if meta.generation() == meta.last_refresh_generation() {
        Ok(())
    } else {
        Err(Stale)
    }
}

} // verus!
