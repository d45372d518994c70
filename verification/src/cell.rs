//! One series' cache: the last value received and the fetch that may replace it.

use vstd::prelude::*;
use poll_promise::Promise;

verus! {

/// What a look at a running fetch shows.
pub enum FetchState<T> {
    /// The fetch has not finished.
    Pending,
    /// The fetch has finished: with a value, or with `None` where the source failed.
    Finished(Option<T>),
}

/// `poll_promise::Promise`, the handle of a fetch that was started elsewhere.
/// Nothing inside it is visible to the proofs.
#[verifier::external_type_specification]
#[verifier::external_body]
#[verifier::reject_recursive_types(T)]
pub struct ExPromise<T: Send + 'static>(Promise<T>);

/// `Promise::ready_mut` looks at the promise without blocking: `None` while
/// no value has arrived, else the value. Nothing is claimed of what it
/// returns, nor of the promise afterwards; it returns for every promise, also
/// for one whose sender is gone.
pub assume_specification<T: Send + 'static>[ Promise::<T>::ready_mut ](
    promise: &mut Promise<T>,
) -> (ready: Option<&mut T>)
;

/// The part of a cell that the refresh rules read.
pub struct CellState<T> {
    /// The last value received, if any.
    pub value: Option<T>,
    /// Whether the result of the cell's fetch has been taken in.
    pub settled: bool,
}

impl<T> CellState<T> {
    /// The cell after it has seen `state`. A settled cell ignores its fetch.
    pub open spec fn absorb(self, state: FetchState<T>) -> CellState<T> {
        if self.settled {
            self
        } else {
            match state {
                FetchState::Pending => self,
                FetchState::Finished(None) => CellState { value: self.value, settled: true },
                FetchState::Finished(Some(v)) => CellState { value: Some(v), settled: true },
            }
        }
    }

    /// Whether one poll can lead from `self` to `next`: whether some state of
    /// the fetch, absorbed by `self`, gives `next`.
    pub open spec fn steps_to(self, next: CellState<T>) -> bool {
        if self.settled {
            next == self
        } else {
            next == self || (next.settled && (next.value == self.value || next.value is Some))
        }
    }
}

/// `b` is what cloning `a` may give.
pub open spec fn option_cloned<T: Clone>(a: Option<T>, b: Option<T>) -> bool {
    match a {
        None => b is None,
        Some(x) => b is Some && cloned(x, b->0),
    }
}

/// The last value of one series together with the fetch in flight for it.
#[verifier::reject_recursive_types(T)]
pub struct PollableValue<T: 'static + Send + Clone> {
    pub value: Option<T>,
    promise: Promise<Option<T>>,
    settled: bool,
}

impl<T: 'static + Send + Clone> View for PollableValue<T> {
    type V = CellState<T>;

    closed spec fn view(&self) -> CellState<T> {
        CellState { value: self.value, settled: self.settled }
    }
}

impl<T: 'static + Send + Clone> PollableValue<T> {
    /// The fetch that this cell owns.
    pub closed spec fn fetch(&self) -> Promise<Option<T>> {
        self.promise
    }

    /// default_value: value to be used before poll is complete
    ///
    /// promise: a Promise that will be polled
    pub fn new(default_value: Option<T>, promise: Promise<Option<T>>) -> (cell: Self)
        ensures
            cell@ == (CellState { value: default_value, settled: false }),
            cell.fetch() == promise,
    {
        PollableValue { value: default_value, promise, settled: false }
    }

    /// Moves the value out, for the cell that takes this one's place.
    pub(crate) fn take_value(&mut self) -> (value: Option<T>)
        ensures
            value == old(self)@.value,
            final(self)@ == (CellState::<T> { value: None, settled: old(self)@.settled }),
            final(self).fetch() == old(self).fetch(),
    {
        self.value.take()
    }

    /// Takes in what a look at the fetch showed and returns the value now held.
    pub fn absorb(&mut self, state: FetchState<T>) -> (latest: Option<T>)
        ensures
            final(self)@ == old(self)@.absorb(state),
            final(self).fetch() == old(self).fetch(),
            option_cloned(final(self)@.value, latest),
    {
        if !self.settled {
            match state {
                FetchState::Pending => {},
                FetchState::Finished(None) => {
                    self.settled = true;
                },
                FetchState::Finished(Some(v)) => {
                    self.value = Some(v);
                    self.settled = true;
                },
            }
        }
        self.value.clone()
    }

    /// Polls the promise and returns its value if ready
    ///
    /// returns: value if ready or default exists, none otherwise
    ///
    /// A promise that resolves to `None` leaves the value as it is. Once the
    /// promise has resolved it is not looked at again.
    pub fn poll(&mut self) -> (latest: Option<T>)
        ensures
            old(self)@.steps_to(final(self)@),
            old(self)@.settled ==> final(self).fetch() == old(self).fetch(),
            option_cloned(final(self)@.value, latest),
    {
        if self.settled {
            self.value.clone()
        } else {
            let state = match self.promise.ready_mut() {
                None => FetchState::Pending,
                Some(result) => FetchState::Finished(result.clone()),
            };
            self.absorb(state)
        }
    }
}

/// One poll leads from a cell to exactly the cells that taking in some state
/// of its fetch gives.
pub proof fn lemma_steps_are_absorptions<T>(cell: CellState<T>, next: CellState<T>)
    ensures
        cell.steps_to(next) <==> exists|state: FetchState<T>| next == #[trigger] cell.absorb(state),
{
    if cell.steps_to(next) {
        if next == cell {
            assert(next == cell.absorb(FetchState::Pending));
        } else if next.value == cell.value {
            assert(next == cell.absorb(FetchState::Finished(None)));
        } else {
            assert(next == cell.absorb(FetchState::Finished(next.value)));
        }
    }
}

/// A value once held is never lost: a poll keeps it or replaces it by another.
pub proof fn lemma_value_is_kept<T>(cell: CellState<T>, next: CellState<T>)
    requires
        cell.steps_to(next),
        cell.value is Some,
    ensures
        next.value is Some,
{
}

/// A cell whose fetch has been taken in is changed by no later poll,
/// whatever the fetch shows then.
pub proof fn lemma_settled_cell_is_stable<T>(
    cell: CellState<T>,
    state: FetchState<T>,
    next: CellState<T>,
)
    requires
        cell.settled,
    ensures
        cell.absorb(state) == cell,
        cell.steps_to(next) ==> next == cell,
{
}

/// Polling twice after the fetch has finished gives the same cell as polling once.
pub proof fn lemma_second_poll_changes_nothing<T>(
    cell: CellState<T>,
    result: Option<T>,
    again: FetchState<T>,
)
    ensures
        cell.absorb(FetchState::Finished(result)).settled,
        cell.absorb(FetchState::Finished(result)).absorb(again) == cell.absorb(
            FetchState::Finished(result),
        ),
{
}

} // verus!
