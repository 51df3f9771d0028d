//! The arithmetic of the running set: which symbols stay, which leave and
//! which join when the collector is told what it should be running.

use crate::ticker::parse_symbol;
use vstd::prelude::*;

verus! {

/// A list of symbols.
pub type Symbols = Seq<Seq<char>>;

/// A running list is well formed when no symbol stands in it twice and every
/// symbol in it names a trading pair.
pub open spec fn running_wf(running: Symbols) -> bool {
    &&& running.no_duplicates()
    &&& forall|i: int| 0 <= i < running.len() ==> parse_symbol(#[trigger] running[i]) is Some
}

/// Whether a worker is to be started for `symbol`: it names a trading pair
/// and no worker runs for it.
pub open spec fn may_start(running: Symbols, symbol: Seq<char>) -> bool {
    parse_symbol(symbol) is Some && !running.contains(symbol)
}

/// The running list after a request to start `symbol`.
pub open spec fn started(running: Symbols, symbol: Seq<char>) -> Symbols {
    if may_start(running, symbol) {
        running.push(symbol)
    } else {
        running
    }
}

/// The running list after a request to stop `symbol`.
pub open spec fn stopped(running: Symbols, symbol: Seq<char>) -> Symbols {
    running.remove_value(symbol)
}

/// The running list after requests to start each of `symbols`, in order.
pub open spec fn started_each(running: Symbols, symbols: Symbols) -> Symbols
    decreases symbols.len(),
{
    if symbols.len() == 0 {
        running
    } else {
        started(started_each(running, symbols.drop_last()), symbols.last())
    }
}

/// The test for standing in `desired`.
pub open spec fn among(desired: Symbols) -> spec_fn(Seq<char>) -> bool {
    |symbol: Seq<char>| desired.contains(symbol)
}

/// The test for not standing in `desired`.
pub open spec fn not_among(desired: Symbols) -> spec_fn(Seq<char>) -> bool {
    |symbol: Seq<char>| !desired.contains(symbol)
}

/// The test for naming no trading pair.
pub open spec fn unreadable() -> spec_fn(Seq<char>) -> bool {
    |symbol: Seq<char>| parse_symbol(symbol) is None
}

/// The running symbols that are still desired, in their order.
pub open spec fn retained(running: Symbols, desired: Symbols) -> Symbols {
    running.filter(among(desired))
}

/// The running symbols that are no longer desired, in their order.
pub open spec fn dismissed(running: Symbols, desired: Symbols) -> Symbols {
    running.filter(not_among(desired))
}

/// The desired symbols that name no trading pair, in their order.
pub open spec fn rejected(desired: Symbols) -> Symbols {
    desired.filter(unreadable())
}

/// The running list once it has been brought to `desired`: what is no longer
/// desired is stopped, then each desired symbol is started.
pub open spec fn reconciled(running: Symbols, desired: Symbols) -> Symbols {
    started_each(retained(running, desired), desired)
}

/// The symbols that bringing the running list to `desired` starts, in the
/// order in which they are started.
pub open spec fn newcomers(running: Symbols, desired: Symbols) -> Symbols {
    reconciled(running, desired).skip(retained(running, desired).len() as int)
}

/// What a filter keeps: the elements that pass the test, none of them more
/// often than before.
pub proof fn lemma_filter_keeps(list: Symbols, test: spec_fn(Seq<char>) -> bool)
    ensures
        forall|symbol: Seq<char>|
            #[trigger] list.filter(test).contains(symbol) <==> list.contains(symbol) && test(
                symbol,
            ),
        list.no_duplicates() ==> list.filter(test).no_duplicates(),
        (forall|i: int| 0 <= i < list.len() ==> test(#[trigger] list[i])) ==> list.filter(test)
            == list,
        (forall|i: int| 0 <= i < list.len() ==> !test(#[trigger] list[i])) ==> list.filter(
            test,
        ).len() == 0,
    decreases list.len(),
{
    reveal(Seq::filter);
    if list.len() > 0 {
        let front = list.drop_last();
        let last = list.last();
        let kept = front.filter(test);
        let all = list.filter(test);
        lemma_filter_keeps(front, test);
        assert(all == if test(last) {
            kept.push(last)
        } else {
            kept
        });
        assert(list[list.len() - 1] == last);
        assert forall|symbol: Seq<char>| #[trigger]
            all.contains(symbol) implies list.contains(symbol) && test(symbol) by {
            let at = choose|at: int| 0 <= at < all.len() && all[at] == symbol;
            if at < kept.len() {
                assert(kept[at] == symbol);
                assert(kept.contains(symbol));
                let from = choose|from: int| 0 <= from < front.len() && front[from] == symbol;
                assert(list[from] == symbol);
            }
        }
        assert forall|symbol: Seq<char>| list.contains(symbol) && test(symbol) implies #[trigger]
            all.contains(symbol) by {
            let at = choose|at: int| 0 <= at < list.len() && list[at] == symbol;
            if at < front.len() {
                assert(front[at] == symbol);
                assert(front.contains(symbol));
                assert(kept.contains(symbol));
                let to = choose|to: int| 0 <= to < kept.len() && kept[to] == symbol;
                assert(all[to] == symbol);
            } else {
                assert(all[kept.len() as int] == symbol);
            }
        }
        if list.no_duplicates() {
            assert forall|i: int, j: int|
                0 <= i < front.len() && 0 <= j < front.len() && i != j implies front[i]
                != front[j] by {
                assert(front[i] == list[i] && front[j] == list[j]);
            }
            if kept.contains(last) {
                assert(front.contains(last));
                let at = choose|at: int| 0 <= at < front.len() && front[at] == last;
                assert(list[at] == list[list.len() - 1]);
            }
            assert forall|i: int, j: int|
                0 <= i < all.len() && 0 <= j < all.len() && i != j implies all[i] != all[j] by {
                if i < kept.len() && j < kept.len() {
                    assert(all[i] == kept[i] && all[j] == kept[j]);
                } else if i < kept.len() {
                    assert(kept.contains(kept[i]));
                } else if j < kept.len() {
                    assert(kept.contains(kept[j]));
                }
            }
        }
        if forall|i: int| 0 <= i < list.len() ==> test(#[trigger] list[i]) {
            assert forall|i: int| 0 <= i < front.len() implies test(#[trigger] front[i]) by {
                assert(front[i] == list[i]);
            }
            assert(all =~= list);
        }
        if forall|i: int| 0 <= i < list.len() ==> !test(#[trigger] list[i]) {
            assert forall|i: int| 0 <= i < front.len() implies !test(#[trigger] front[i]) by {
                assert(front[i] == list[i]);
            }
        }
    }
}

/// Starting symbols only adds to the end of the running list, and adds
/// exactly the symbols that name a trading pair and were not running.
pub proof fn lemma_started_each(running: Symbols, symbols: Symbols)
    ensures
        running.len() <= started_each(running, symbols).len(),
        started_each(running, symbols).take(running.len() as int) == running,
        forall|symbol: Seq<char>|
            #[trigger] started_each(running, symbols).contains(symbol) <==> running.contains(
                symbol,
            ) || (symbols.contains(symbol) && parse_symbol(symbol) is Some),
        forall|i: int|
            running.len() <= i < started_each(running, symbols).len() ==> may_start(
                running,
                #[trigger] started_each(running, symbols)[i],
            ),
        running.no_duplicates() ==> started_each(running, symbols).no_duplicates(),
    decreases symbols.len(),
{
    if symbols.len() == 0 {
        assert(running.take(running.len() as int) =~= running);
    } else {
        let front = symbols.drop_last();
        let last = symbols.last();
        let before = started_each(running, front);
        let after = started_each(running, symbols);
        lemma_started_each(running, front);
        assert(after.take(running.len() as int) =~= before.take(running.len() as int));
        assert forall|symbol: Seq<char>| #[trigger]
            after.contains(symbol) <==> running.contains(symbol) || (symbols.contains(symbol)
                && parse_symbol(symbol) is Some) by {
            assert(symbols[symbols.len() - 1] == last);
            if front.contains(symbol) {
                let at = choose|at: int| 0 <= at < front.len() && front[at] == symbol;
                assert(symbols[at] == symbol);
            }
            if symbols.contains(symbol) && symbol != last {
                let at = choose|at: int| 0 <= at < symbols.len() && symbols[at] == symbol;
                assert(front[at] == symbol);
            }
            if before.contains(symbol) {
                let at = choose|at: int| 0 <= at < before.len() && before[at] == symbol;
                assert(after[at] == symbol);
            }
            if after.contains(symbol) && !before.contains(symbol) {
                let at = choose|at: int| 0 <= at < after.len() && after[at] == symbol;
                if at < before.len() {
                    assert(before[at] == symbol);
                }
            }
            if may_start(before, last) {
                assert(after[before.len() as int] == last);
            }
        }
        assert forall|i: int| running.len() <= i < after.len() implies may_start(
            running,
            #[trigger] after[i],
        ) by {
            if i < before.len() {
                assert(after[i] == before[i]);
            }
        }
    }
}

/// Where every desired symbol that names a trading pair is running, starting
/// the desired symbols changes nothing.
pub proof fn lemma_started_each_settled(running: Symbols, symbols: Symbols)
    requires
        forall|i: int|
            0 <= i < symbols.len() && parse_symbol(#[trigger] symbols[i]) is Some
                ==> running.contains(symbols[i]),
    ensures
        started_each(running, symbols) == running,
    decreases symbols.len(),
{
    if symbols.len() > 0 {
        let front = symbols.drop_last();
        assert forall|i: int|
            0 <= i < front.len() && parse_symbol(#[trigger] front[i]) is Some
            implies running.contains(front[i]) by {
            assert(front[i] == symbols[i]);
        }
        lemma_started_each_settled(running, front);
        assert(symbols[symbols.len() - 1] == symbols.last());
    }
}

/// Bringing a well-formed running list to `desired` leaves a well-formed
/// list that holds exactly the desired symbols that name a trading pair.
pub proof fn lemma_reconciled_is_desired(running: Symbols, desired: Symbols)
    requires
        running_wf(running),
    ensures
        running_wf(reconciled(running, desired)),
        forall|symbol: Seq<char>|
            #[trigger] reconciled(running, desired).contains(symbol) <==> desired.contains(symbol)
                && parse_symbol(symbol) is Some,
{
    let kept = retained(running, desired);
    let result = reconciled(running, desired);
    lemma_filter_keeps(running, among(desired));
    lemma_started_each(kept, desired);
    assert forall|i: int| 0 <= i < result.len() implies parse_symbol(#[trigger] result[i])
        is Some by {
        if i < kept.len() {
            assert(result.take(kept.len() as int)[i] == result[i]);
            assert(kept.contains(kept[i]));
            let at = choose|at: int| 0 <= at < running.len() && running[at] == kept[i];
            assert(parse_symbol(running[at]) is Some);
        }
    }
    assert forall|symbol: Seq<char>| #[trigger]
        result.contains(symbol) <==> desired.contains(symbol) && parse_symbol(symbol) is Some by {
        if kept.contains(symbol) {
            let at = choose|at: int| 0 <= at < running.len() && running[at] == symbol;
            assert(parse_symbol(running[at]) is Some);
        }
    }
}

/// What is stopped is exactly what was running and is no longer desired;
/// what was running and is still desired is neither stopped nor started, and
/// keeps its place at the front of the running list.
pub proof fn lemma_reconcile_spares_the_desired(running: Symbols, desired: Symbols)
    ensures
        forall|symbol: Seq<char>|
            #[trigger] dismissed(running, desired).contains(symbol) <==> running.contains(symbol)
                && !desired.contains(symbol),
        forall|symbol: Seq<char>|
            running.contains(symbol) && desired.contains(symbol) ==> !#[trigger] newcomers(
                running,
                desired,
            ).contains(symbol),
        reconciled(running, desired) == retained(running, desired) + newcomers(running, desired),
        forall|symbol: Seq<char>|
            #[trigger] retained(running, desired).contains(symbol) <==> running.contains(symbol)
                && desired.contains(symbol),
{
    let kept = retained(running, desired);
    let result = reconciled(running, desired);
    let joined = newcomers(running, desired);
    lemma_filter_keeps(running, among(desired));
    lemma_filter_keeps(running, not_among(desired));
    lemma_started_each(kept, desired);
    assert(result =~= result.take(kept.len() as int) + joined);
    assert forall|symbol: Seq<char>|
        running.contains(symbol) && desired.contains(symbol) implies !#[trigger] joined.contains(
        symbol,
    ) by {
        if joined.contains(symbol) {
            let at = choose|at: int| 0 <= at < joined.len() && joined[at] == symbol;
            assert(result[kept.len() + at] == symbol);
            assert(kept.contains(symbol));
        }
    }
}

/// Bringing the running list to the same desired list a second time stops
/// nothing, starts nothing and leaves the list as it is.
pub proof fn lemma_reconcile_idempotent(running: Symbols, desired: Symbols)
    ensures
        reconciled(reconciled(running, desired), desired) == reconciled(running, desired),
        dismissed(reconciled(running, desired), desired).len() == 0,
        newcomers(reconciled(running, desired), desired).len() == 0,
{
    let kept = retained(running, desired);
    let once = reconciled(running, desired);
    lemma_filter_keeps(running, among(desired));
    lemma_started_each(kept, desired);
    assert forall|i: int| 0 <= i < once.len() implies desired.contains(#[trigger] once[i]) by {
        assert(once.contains(once[i]));
    }
    assert forall|i: int| 0 <= i < once.len() implies among(desired)(#[trigger] once[i]) by {
        assert(desired.contains(once[i]));
    }
    assert forall|i: int| 0 <= i < once.len() implies !not_among(desired)(#[trigger] once[i]) by {
        assert(desired.contains(once[i]));
    }
    lemma_filter_keeps(once, among(desired));
    lemma_filter_keeps(once, not_among(desired));
    assert forall|i: int|
        0 <= i < desired.len() && parse_symbol(#[trigger] desired[i]) is Some
        implies once.contains(desired[i]) by {
        assert(desired.contains(desired[i]));
    }
    lemma_started_each_settled(once, desired);
    assert(once.skip(once.len() as int).len() == 0);
}

/// Starting a symbol keeps a well-formed running list well formed, and a
/// second start of the same symbol changes nothing.
pub proof fn lemma_started(running: Symbols, symbol: Seq<char>)
    ensures
        running_wf(running) ==> running_wf(started(running, symbol)),
        started(started(running, symbol), symbol) == started(running, symbol),
{
    let after = started(running, symbol);
    if may_start(running, symbol) {
        assert(after[running.len() as int] == symbol);
        if running_wf(running) {
            assert forall|i: int, j: int|
                0 <= i < after.len() && 0 <= j < after.len() && i != j implies after[i]
                != after[j] by {
                if i < running.len() && j < running.len() {
                    assert(after[i] == running[i] && after[j] == running[j]);
                } else if i < running.len() {
                    assert(running.contains(running[i]));
                } else if j < running.len() {
                    assert(running.contains(running[j]));
                }
            }
        }
    }
}

/// Stopping a symbol keeps a well-formed running list well formed, and the
/// symbol is not running afterwards.
pub proof fn lemma_stopped(running: Symbols, symbol: Seq<char>)
    requires
        running_wf(running),
    ensures
        running_wf(stopped(running, symbol)),
        !stopped(running, symbol).contains(symbol),
        forall|other: Seq<char>|
            other != symbol ==> (#[trigger] stopped(running, symbol).contains(other)
                <==> running.contains(other)),
{
    running.index_of_first_ensures(symbol);
    let after = stopped(running, symbol);
    if let Some(at) = running.index_of_first(symbol) {
        assert forall|i: int| 0 <= i < after.len() implies #[trigger] after[i] == running[if i
            < at {
            i
        } else {
            i + 1
        }] by {}
        assert forall|other: Seq<char>| other != symbol implies (#[trigger] after.contains(other)
            <==> running.contains(other)) by {
            if running.contains(other) {
                let k = choose|k: int| 0 <= k < running.len() && running[k] == other;
                if k < at {
                    assert(after[k] == other);
                } else {
                    assert(after[k - 1] == other);
                }
            }
        }
        if after.contains(symbol) {
            let k = choose|k: int| 0 <= k < after.len() && after[k] == symbol;
            assert(running[if k < at { k } else { k + 1 }] == symbol);
        }
    }
}

/// The first place of `symbol` in `list` is `at` when it stands there and
/// nowhere before; it has none when `at` is the end of a list without it.
pub proof fn lemma_first_place(list: Symbols, symbol: Seq<char>, at: int)
    requires
        0 <= at <= list.len(),
        forall|k: int| 0 <= k < at ==> list[k] != symbol,
        at < list.len() ==> list[at] == symbol,
    ensures
        list.index_of_first(symbol) == if at < list.len() {
            Some(at)
        } else {
            None
        },
        list.contains(symbol) == (at < list.len()),
{
    list.index_of_first_ensures(symbol);
    if at < list.len() {
        let found = list.index_of_first(symbol).unwrap();
        assert(!(found < at));
        assert(!(at < found));
    }
}

} // verus!
