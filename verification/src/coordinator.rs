//! The per-tick entry point: polls every series and, once all are ready and
//! the refresh period has passed, starts all fetches again together.

use vstd::prelude::*;
use poll_promise::Promise;
use crate::cell::option_cloned;
use crate::config::{effective_period, RefreshConfig};
use crate::registry::{first_fault, RegistryError, RegistryState, SeriesRegistry};
use crate::series::SeriesKey;
use crate::snapshot::{all_ready, key_views, Snapshot};

verus! {

/// The part of a coordinator that the refresh rules read.
pub struct CoordinatorState<T> {
    /// The registry of the current generation.
    pub registry: RegistryState<T>,
    /// How many times the registry has been rebuilt.
    pub generation: nat,
}

impl<T> CoordinatorState<T> {
    /// Whether a tick whose poll led to `polled` rebuilds the registry: every
    /// series has a value, and with this tick the counter reaches the period.
    pub open spec fn rebuild_due(polled: RegistryState<T>, configured: u16) -> bool {
        &&& all_ready(polled.values())
        &&& polled.cycle_ticks + 1 >= effective_period(configured)
    }

    /// The coordinator after a tick whose poll led to `polled`.
    pub open spec fn after_tick(self, polled: RegistryState<T>, configured: u16) -> CoordinatorState<
        T,
    > {
        if Self::rebuild_due(polled, configured) {
            CoordinatorState { registry: polled.restarted(), generation: self.generation + 1 }
        } else if all_ready(polled.values()) {
            CoordinatorState {
                registry: RegistryState { cycle_ticks: polled.cycle_ticks + 1, ..polled },
                generation: self.generation,
            }
        } else {
            CoordinatorState { registry: polled, generation: self.generation }
        }
    }

    /// Whether one tick can lead from `self` to `next`.
    pub open spec fn ticks_to(self, next: CoordinatorState<T>, configured: u16) -> bool {
        exists|polled: RegistryState<T>|
            #[trigger] self.registry.polls_to(polled) && next == self.after_tick(polled, configured)
    }
}

/// Owns the registry and the fetch factory, and rebuilds the one with the
/// other whenever a refresh falls due.
#[verifier::reject_recursive_types(T)]
pub struct RefreshCoordinator<T: 'static + Send + Clone, F> {
    registry: SeriesRegistry<T>,
    fetch_factory: F,
    generation: Ghost<nat>,
}

impl<T: 'static + Send + Clone, F> View for RefreshCoordinator<T, F> {
    type V = CoordinatorState<T>;

    closed spec fn view(&self) -> CoordinatorState<T> {
        CoordinatorState { registry: self.registry@, generation: self.generation@ }
    }
}

impl<T: 'static + Send + Clone, F: Fn(&SeriesKey) -> Promise<Option<T>>> RefreshCoordinator<T, F> {
    /// The registry of the current generation.
    pub closed spec fn registry(&self) -> SeriesRegistry<T> {
        self.registry
    }

    /// The factory that starts the fetch of a series.
    pub closed spec fn factory(&self) -> F {
        self.fetch_factory
    }

    /// The registry is well formed, its counter can still count, and the
    /// factory can be called on every key.
    pub open spec fn wf(&self) -> bool {
        &&& self.registry().wf()
        &&& self.registry()@ == self@.registry
        &&& self@.registry.cycle_ticks < u16::MAX
        &&& forall|key: SeriesKey| call_requires(self.factory(), (&key,))
    }

    /// Starts one fetch per key and seeds each series with the value that
    /// `seeds` records for its key. Fails as `SeriesRegistry::new` does.
    pub fn new(keys: Vec<SeriesKey>, seeds: Snapshot<T>, fetch_factory: F) -> (built: Result<
        Self,
        RegistryError,
    >)
        requires
            seeds.wf(),
            forall|key: SeriesKey| call_requires(fetch_factory, (&key,)),
        ensures
            match built {
                Ok(coordinator) => {
                    &&& first_fault(key_views(keys@), seeds.keys()) is None
                    &&& coordinator.wf()
                    &&& coordinator.factory() == fetch_factory
                    &&& coordinator.registry().series_keys() == keys@
                    &&& coordinator@.generation == 0
                    &&& coordinator@.registry.cycle_ticks == 0
                    &&& forall|i: int|
                        0 <= i < keys@.len() ==> {
                            &&& seeds.value_of(keys@[i]@) == Some(
                                (#[trigger] coordinator@.registry.cells[i]).value,
                            )
                            &&& !coordinator@.registry.cells[i].settled
                        }
                    &&& forall|i: int|
                        0 <= i < keys@.len() ==> call_ensures(
                            fetch_factory,
                            (&keys@[i],),
                            #[trigger] coordinator.registry().fetches()[i],
                        )
                },
                Err(e) => first_fault(key_views(keys@), seeds.keys()) == Some(e),
            },
    {
        match SeriesRegistry::new(keys, seeds, &fetch_factory) {
            Ok(registry) => Ok(RefreshCoordinator { registry, fetch_factory, generation: Ghost(0) }),
            Err(e) => Err(e),
        }
    }

    /// The fully ready ticks counted in the current generation.
    pub fn cycle_ticks(&self) -> (ticks: u16)
        ensures
            ticks == self@.registry.cycle_ticks,
    {
        self.registry.cycle_ticks()
    }

    /// Polls every series and returns the value that each now holds. Where
    /// every series has a value the tick is counted, and where the count
    /// reaches the period of `current_config` every fetch is started again,
    /// each series keeping its value, and the count goes back to zero.
    pub fn tick(&mut self, current_config: &RefreshConfig) -> (snapshot: Snapshot<T>)
        requires
            old(self).wf(),
        ensures
            final(self).wf(),
            final(self).factory() == old(self).factory(),
            final(self).registry().series_keys() == old(self).registry().series_keys(),
            old(self)@.ticks_to(final(self)@, current_config.refresh_period_ticks),
            snapshot.wf(),
            snapshot.keys() == final(self)@.registry.keys,
            snapshot.values().len() == final(self)@.registry.cells.len(),
            forall|i: int|
                0 <= i < final(self)@.registry.cells.len() ==> option_cloned(
                    (#[trigger] final(self)@.registry.cells[i]).value,
                    snapshot.values()[i],
                ),
            forall|i: int|
                0 <= i < old(self)@.registry.cells.len() && (#[trigger] old(
                    self,
                )@.registry.cells[i]).value is Some ==> snapshot.values()[i] is Some,
            ({
                let ready = all_ready(snapshot.values());
                let due = ready && old(self)@.registry.cycle_ticks + 1 >= effective_period(
                    current_config.refresh_period_ticks,
                );
                &&& final(self)@.generation == old(self)@.generation + if due { 1nat } else { 0nat }
                &&& final(self)@.registry.cycle_ticks == if due {
                    0
                } else if ready {
                    old(self)@.registry.cycle_ticks + 1
                } else {
                    old(self)@.registry.cycle_ticks
                }
            }),
            final(self)@.generation != old(self)@.generation ==> forall|i: int|
                0 <= i < final(self).registry().fetches().len() ==> call_ensures(
                    final(self).factory(),
                    (&final(self).registry().series_keys()[i],),
                    #[trigger] final(self).registry().fetches()[i],
                ),
    {
        let snapshot = self.registry.poll_all();
        let ghost polled = self.registry@;
        proof {
            lemma_clones_are_ready_together(polled.values(), snapshot.values());
        }
        if snapshot.ready_count() == snapshot.len() {
            self.registry.count_tick();
            if self.registry.cycle_ticks() >= current_config.period() {
                assert(self.factory() == old(self).factory());
                self.registry.restart(&self.fetch_factory);
                proof {
                    self.generation@ = self.generation@ + 1;
                    assert(self.registry@.cells =~= polled.restarted().cells);
                }
            }
        }
        proof {
            assert(self.factory() == old(self).factory());
            assert(old(self)@.registry.polls_to(polled));
            assert forall|i: int|
                0 <= i < old(self)@.registry.cells.len() && (#[trigger] old(
                    self,
                )@.registry.cells[i]).value is Some implies snapshot.values()[i] is Some by {
                assert(old(self)@.registry.cells[i].steps_to(polled.cells[i]));
                assert(option_cloned(polled.cells[i].value, snapshot.values()[i]));
            }
            assert(self@ == old(self)@.after_tick(polled, current_config.refresh_period_ticks));
        }
        snapshot
    }
}

/// Values and their clones are present at the same places.
pub proof fn lemma_clones_are_ready_together<T: Clone>(
    values: Seq<Option<T>>,
    clones: Seq<Option<T>>,
)
    requires
        values.len() == clones.len(),
        forall|i: int| 0 <= i < values.len() ==> option_cloned(#[trigger] values[i], clones[i]),
    ensures
        all_ready(values) <==> all_ready(clones),
{
    if all_ready(values) {
        assert forall|i: int| 0 <= i < clones.len() implies (#[trigger] clones[i]) is Some by {
            assert(option_cloned(values[i], clones[i]));
        }
    }
    if all_ready(clones) {
        assert forall|i: int| 0 <= i < values.len() implies (#[trigger] values[i]) is Some by {
            assert(option_cloned(values[i], clones[i]));
            assert(clones[i] is Some);
        }
    }
}

/// A series that has a value before a tick has one after it, rebuild or not.
pub proof fn lemma_tick_keeps_readiness<T>(
    before: CoordinatorState<T>,
    after: CoordinatorState<T>,
    configured: u16,
    i: int,
)
    requires
        before.ticks_to(after, configured),
        0 <= i < before.registry.cells.len(),
        before.registry.cells[i].value is Some,
    ensures
        after.registry.keys == before.registry.keys,
        after.registry.cells.len() == before.registry.cells.len(),
        after.registry.cells[i].value is Some,
{
    let polled = choose|polled: RegistryState<T>|
        #[trigger] before.registry.polls_to(polled) && after == before.after_tick(polled, configured);
    assert(before.registry.cells[i].steps_to(polled.cells[i]));
}

/// Once a series has a value, it has one after every later tick.
pub proof fn lemma_readiness_is_monotonic<T>(
    trace: Seq<CoordinatorState<T>>,
    configs: Seq<u16>,
    from: int,
    to: int,
    i: int,
)
    requires
        trace.len() == configs.len() + 1,
        forall|k: int|
            0 <= k < configs.len() ==> (#[trigger] trace[k]).ticks_to(trace[k + 1], configs[k]),
        0 <= from <= to < trace.len(),
        0 <= i < trace[from].registry.cells.len(),
        trace[from].registry.cells[i].value is Some,
    ensures
        trace[to].registry.keys == trace[from].registry.keys,
        trace[to].registry.cells.len() == trace[from].registry.cells.len(),
        trace[to].registry.cells[i].value is Some,
    decreases to - from,
{
    if from < to {
        lemma_readiness_is_monotonic(trace, configs, from, to - 1, i);
        assert(trace[to - 1].ticks_to(trace[to - 1 + 1], configs[to - 1]));
        lemma_tick_keeps_readiness(trace[to - 1], trace[to], configs[to - 1], i);
    }
}

/// A tick rebuilds the registry exactly when every series has a value and the
/// counter reaches the period with it. A rebuild replaces the fetch of every
/// series; without one no cell is replaced.
pub proof fn lemma_rebuild_is_all_or_nothing<T>(
    before: CoordinatorState<T>,
    polled: RegistryState<T>,
    configured: u16,
)
    ensures
        ({
            let after = before.after_tick(polled, configured);
            let due = CoordinatorState::rebuild_due(polled, configured);
            &&& after.generation == before.generation + 1 <==> due
            &&& after.generation == before.generation <==> !due
            &&& after.registry.keys == polled.keys
            &&& after.registry.cells.len() == polled.cells.len()
            &&& due ==> forall|i: int|
                0 <= i < polled.cells.len() ==> !(#[trigger] after.registry.cells[i]).settled
            &&& !due ==> after.registry.cells == polled.cells
        }),
{
}

/// A rebuild keeps every value, and a poll of the new registry that sees no
/// fetch finished gives these values again.
pub proof fn lemma_rebuild_carries_values_forward<T>(
    before: CoordinatorState<T>,
    polled: RegistryState<T>,
    configured: u16,
    polled_again: RegistryState<T>,
)
    requires
        CoordinatorState::rebuild_due(polled, configured),
        before.after_tick(polled, configured).registry.polls_to(polled_again),
        forall|i: int| 0 <= i < polled_again.cells.len() ==> !(#[trigger] polled_again.cells[i]).settled,
    ensures
        before.after_tick(polled, configured).registry.values() == polled.values(),
        polled_again.values() == polled.values(),
        all_ready(polled_again.values()),
{
    let rebuilt = before.after_tick(polled, configured).registry;
    assert(rebuilt.values() =~= polled.values());
    assert forall|i: int| 0 <= i < polled.cells.len() implies polled_again.cells[i].value
        == polled.cells[i].value by {
        assert(rebuilt.cells[i].steps_to(polled_again.cells[i]));
        assert(!polled_again.cells[i].settled);
    }
    assert(polled_again.values() =~= polled.values());
}

/// The counter is zero after a rebuild, goes up by one on every other tick
/// that finds all series ready, and stays on a tick that does not.
pub proof fn lemma_tick_count<T>(
    before: CoordinatorState<T>,
    polled: RegistryState<T>,
    configured: u16,
)
    requires
        before.registry.polls_to(polled),
    ensures
        before.after_tick(polled, configured).registry.cycle_ticks == if CoordinatorState::rebuild_due(
            polled,
            configured,
        ) {
            0
        } else if all_ready(polled.values()) {
            before.registry.cycle_ticks + 1
        } else {
            before.registry.cycle_ticks
        },
{
}

} // verus!
