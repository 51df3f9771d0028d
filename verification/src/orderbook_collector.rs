//! The collector: the list of trading pairs that a worker runs for, and the
//! decisions that start and stop workers.
//!
//! The collector decides and its caller acts: each operation brings the list
//! up to date and says which workers the caller has to start or stop.

use crate::cex_api::CexApi;
use crate::reconcile::{
    among,
    dismissed,
    lemma_first_place,
    lemma_reconciled_is_desired,
    lemma_started,
    lemma_started_each,
    lemma_stopped,
    may_start,
    newcomers,
    not_among,
    reconciled,
    rejected,
    retained,
    running_wf,
    started,
    started_each,
    stopped,
    unreadable,
    Symbols,
};
use crate::ticker::{parse_symbol, Ticker};
use crate::worker::{Worker, WorkerModel};
use vstd::prelude::*;

verus! {

/// The texts of a list of strings.
pub open spec fn texts(list: Seq<String>) -> Symbols {
    Seq::new(list.len(), |i: int| list[i]@)
}

/// What a request to start a symbol comes to.
#[derive(Debug)]
pub enum StartOutcome {
    /// A worker is to be started for this trading pair.
    Spawn(Ticker),
    /// A worker runs for the symbol already; nothing is to be done.
    AlreadyRunning,
    /// The symbol names no trading pair; nothing is to be done but to report
    /// it.
    InvalidSymbol,
}

/// What bringing the collector to a desired list comes to.
#[derive(Debug)]
pub struct Reconciliation {
    /// The symbols whose workers are to be stopped, before any is started.
    pub to_stop: Vec<String>,
    /// The trading pairs that workers are to be started for.
    pub to_start: Vec<Ticker>,
    /// The desired symbols that name no trading pair.
    pub invalid: Vec<String>,
}

impl Reconciliation {
    /// Whether this is what bringing the list `running` to `desired` comes
    /// to: the workers to stop, the trading pairs of the workers to start in
    /// the order in which they join the list, and the symbols turned down.
    pub open spec fn brings(&self, running: Symbols, desired: Symbols) -> bool {
        &&& texts(self.to_stop@) == dismissed(running, desired)
        &&& self.to_start@.len() == newcomers(running, desired).len()
        &&& forall|i: int|
            0 <= i < self.to_start@.len() ==> parse_symbol(newcomers(running, desired)[i])
                == Some(#[trigger] self.to_start@[i]@)
        &&& texts(self.invalid@) == rejected(desired)
    }
}

/// The symbols that workers run for, in the order in which they were started.
pub struct OrderBookCollector {
    running: Vec<String>,
}

impl View for OrderBookCollector {
    type V = Symbols;

    closed spec fn view(&self) -> Symbols {
        texts(self.running@)
    }
}

/// The first place of `symbol` in `list`.
fn place_of(list: &[String], symbol: &String) -> (place: Option<usize>)
    ensures
        texts(list@).contains(symbol@) == place is Some,
        match place {
            Some(at) => at < list.len() && texts(list@).index_of_first(symbol@) == Some(at as int),
            None => texts(list@).index_of_first(symbol@) is None,
        },
{
    let mut at: usize = 0;
    while at < list.len()
        invariant
            at <= list.len(),
            forall|k: int| 0 <= k < at ==> texts(list@)[k] != symbol@,
        decreases list.len() - at,
    {
        if list[at] == *symbol {
            proof {
                lemma_first_place(texts(list@), symbol@, at as int);
            }
            return Some(at);
        }
        at += 1;
    }
    proof {
        lemma_first_place(texts(list@), symbol@, at as int);
    }
    None
}

impl OrderBookCollector {
    /// No symbol is listed twice, and every listed symbol names a trading
    /// pair: there is at most one worker for a symbol.
    pub open spec fn wf(&self) -> bool {
        running_wf(self@)
    }

    /// A collector with no worker running.
    pub fn new() -> (collector: OrderBookCollector)
        ensures
            collector@ == Symbols::empty(),
            collector.wf(),
    {
        let collector = OrderBookCollector { running: Vec::new() };
        assert(collector@ =~= Symbols::empty());
        collector
    }

    /// The symbols that workers run for, in the order in which they were
    /// started.
    pub fn running(&self) -> (symbols: &Vec<String>)
        ensures
            texts(symbols@) == self@,
    {
        &self.running
    }

    /// Whether a worker runs for `symbol`.
    pub fn is_running(&self, symbol: &str) -> (running: bool)
        ensures
            running == self@.contains(symbol@),
    {
        let symbol = symbol.to_owned();
        place_of(self.running.as_slice(), &symbol).is_some()
    }

    /// Asks for a worker for `symbol`. A symbol that names no trading pair is
    /// turned down, and so is one that a worker runs for already; either way
    /// the collector stays as it is.
    pub fn start(&mut self, symbol: &str) -> (outcome: StartOutcome)
        ensures
            final(self)@ == started(old(self)@, symbol@),
            old(self).wf() ==> final(self).wf(),
            match outcome {
                StartOutcome::Spawn(ticker) => may_start(old(self)@, symbol@) && parse_symbol(
                    symbol@,
                ) == Some(ticker@),
                StartOutcome::AlreadyRunning => parse_symbol(symbol@) is Some
                    && old(self)@.contains(symbol@),
                StartOutcome::InvalidSymbol => parse_symbol(symbol@) is None,
            },
    {
        proof {
            lemma_started(self@, symbol@);
        }
        let ticker = match Ticker::new(symbol) {
            Some(ticker) => ticker,
            None => { return StartOutcome::InvalidSymbol; },
        };
        let symbol = symbol.to_owned();
        if place_of(self.running.as_slice(), &symbol).is_some() {
            return StartOutcome::AlreadyRunning;
        }
        self.running.push(symbol);
        assert(self@ =~= old(self)@.push(symbol@));
        StartOutcome::Spawn(ticker)
    }

    /// Takes `symbol` off the list, and says whether a worker ran for it and
    /// so has to be stopped.
    pub fn stop(&mut self, symbol: &str) -> (was_running: bool)
        ensures
            final(self)@ == stopped(old(self)@, symbol@),
            old(self).wf() ==> final(self).wf(),
            was_running == old(self)@.contains(symbol@),
    {
        proof {
            if self.wf() {
                lemma_stopped(self@, symbol@);
            }
        }
        let symbol = symbol.to_owned();
        match place_of(self.running.as_slice(), &symbol) {
            Some(at) => {
                self.running.remove(at);
                assert(self@ =~= old(self)@.remove(at as int));
                true
            },
            None => false,
        }
    }

    /// Brings the list to `symbols`: what runs and is not among them is to be
    /// stopped, what is among them and does not run is to be started, and
    /// what runs and is among them stays untouched.
    pub fn start_multiple(&mut self, symbols: &[String]) -> (plan: Reconciliation)
        ensures
            final(self)@ == reconciled(old(self)@, texts(symbols@)),
            old(self).wf() ==> final(self).wf(),
            plan.brings(old(self)@, texts(symbols@)),
    {
        let ghost before = self@;
        proof {
            if self.wf() {
                lemma_reconciled_is_desired(before, texts(symbols@));
            }
        }
        let ghost desired = texts(symbols@);
        let mut to_stop: Vec<String> = Vec::new();
        let mut at: usize = 0;
        while at < self.running.len()
            invariant
                desired == texts(symbols@),
                at <= self.running.len(),
                at + to_stop.len() <= before.len(),
                self@.take(at as int) == retained(before.take(at + to_stop.len()), desired),
                self@.skip(at as int) == before.skip(at + to_stop.len()),
                texts(to_stop@) == dismissed(before.take(at + to_stop.len()), desired),
            decreases self.running.len() - at,
        {
            let ghost seen = at + to_stop.len();
            let ghost current = self@;
            proof {
                assert(current.len() == self.running@.len());
                assert(current.skip(at as int).len() == current.len() - at);
                assert(before.skip(seen).len() == before.len() - seen);
                assert(current[at as int] == current.skip(at as int)[0]);
                assert(before[seen] == before.skip(seen)[0]);
                assert(before.take(seen + 1) =~= before.take(seen).push(before[seen]));
                before.take(seen).lemma_filter_push(before[seen], among(desired));
                before.take(seen).lemma_filter_push(before[seen], not_among(desired));
            }
            if place_of(symbols, &self.running[at]).is_some() {
                at += 1;
                proof {
                    assert(current.take(at as int) =~= current.take(at - 1).push(before[seen]));
                    assert(current.skip(at as int) =~= current.skip(at - 1).skip(1));
                    assert(before.skip(seen + 1) =~= before.skip(seen).skip(1));
                }
            } else {
                let symbol = self.running.remove(at);
                to_stop.push(symbol);
                proof {
                    assert(self@ =~= current.remove(at as int));
                    assert(self@.take(at as int) =~= current.take(at as int));
                    assert(self@.skip(at as int) =~= current.skip(at as int).skip(1));
                    assert(before.skip(seen + 1) =~= before.skip(seen).skip(1));
                    assert(texts(to_stop@) =~= dismissed(before.take(seen), desired).push(
                        before[seen],
                    ));
                }
            }
        }
        proof {
            assert(before.skip(at + to_stop.len()).len() == 0);
            assert(before.take(before.len() as int) =~= before);
            assert(self@.take(at as int) =~= self@);
        }
        let ghost kept = self@;
        let mut to_start: Vec<Ticker> = Vec::new();
        let mut invalid: Vec<String> = Vec::new();
        let mut next: usize = 0;
        proof {
            assert(texts(invalid@) =~= rejected(desired.take(0))) by {
                reveal(Seq::filter);
            }
        }
        while next < symbols.len()
            invariant
                desired == texts(symbols@),
                kept == retained(before, desired),
                texts(to_stop@) == dismissed(before, desired),
                next <= symbols.len(),
                self@ == started_each(kept, desired.take(next as int)),
                kept.len() + to_start@.len() == self@.len(),
                forall|i: int|
                    0 <= i < to_start@.len() ==> parse_symbol(self@[kept.len() + i]) == Some(
                        #[trigger] to_start@[i]@,
                    ),
                texts(invalid@) == rejected(desired.take(next as int)),
            decreases symbols.len() - next,
        {
            let ghost current = self@;
            let ghost given = to_start@;
            proof {
                assert(desired.take(next + 1) =~= desired.take(next as int).push(desired[next as int]));
                assert(desired.take(next + 1).drop_last() =~= desired.take(next as int));
                desired.take(next as int).lemma_filter_push(desired[next as int], unreadable());
                lemma_started_each(kept, desired.take(next as int));
            }
            match self.start(symbols[next].as_str()) {
                StartOutcome::Spawn(ticker) => {
                    to_start.push(ticker);
                    proof {
                        assert forall|i: int| 0 <= i < to_start@.len() implies parse_symbol(
                            self@[kept.len() + i],
                        ) == Some(#[trigger] to_start@[i]@) by {
                            if i < given.len() {
                                assert(to_start@[i] == given[i]);
                                assert(self@[kept.len() + i] == current[kept.len() + i]);
                            }
                        }
                    }
                },
                StartOutcome::AlreadyRunning => {},
                StartOutcome::InvalidSymbol => {
                    invalid.push(symbols[next].clone());
                    proof {
                        assert(texts(invalid@) =~= rejected(desired.take(next as int)).push(
                            desired[next as int],
                        ));
                    }
                },
            }
            next += 1;
        }
        proof {
            assert(desired.take(next as int) =~= desired);
            assert forall|i: int| 0 <= i < to_start@.len() implies parse_symbol(
                newcomers(before, desired)[i],
            ) == Some(#[trigger] to_start@[i]@) by {
                assert(newcomers(before, desired)[i] == self@[kept.len() + i]);
            }
        }
        Reconciliation { to_stop, to_start, invalid }
    }

    /// Empties the list, and hands out the symbols whose workers are to be
    /// stopped.
    pub fn stop_all(&mut self) -> (to_stop: Vec<String>)
        ensures
            final(self)@ == Symbols::empty(),
            final(self).wf(),
            texts(to_stop@) == old(self)@,
    {
        let mut to_stop: Vec<String> = Vec::new();
        core::mem::swap(&mut self.running, &mut to_stop);
        assert(self@ =~= Symbols::empty());
        to_stop
    }

    /// The worker for `ticker` on the exchange `api`, not yet started.
    pub fn worker<T: CexApi>(ticker: &Ticker, api: &T) -> (worker: Option<Worker>)
        ensures
            match worker {
                Some(worker) => WorkerModel::for_pair(ticker@, api) == Some(worker@)
                    && worker@.wf(),
                None => WorkerModel::for_pair(ticker@, api) is None,
            },
    {
        Worker::new(ticker, api)
    }
}

} // verus!
