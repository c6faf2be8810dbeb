//! The inventory of handlers and plugins: whatever loaded, in order.

use crate::error::LoadError;
use crate::handler::Handler;
use crate::plugin::Plugin;
use vstd::prelude::*;

verus! {

/// What loaded among the candidates, in the order of discovery.
pub open spec fn loaded<T>(candidates: Seq<Result<T, LoadError>>) -> Seq<T>
    decreases candidates.len(),
{
    if candidates.len() == 0 {
        Seq::empty()
    } else {
        match candidates.last() {
            Ok(item) => loaded(candidates.drop_last()).push(item),
            Err(_) => loaded(candidates.drop_last()),
        }
    }
}

/// Whether handlers stand in ascending order of priority.
pub open spec fn ascending(handlers: Seq<Handler>) -> bool {
    forall|i: int, j: int|
        0 <= i < j < handlers.len() ==> (#[trigger] handlers[i]).priority <= (
        #[trigger] handlers[j]).priority
}

/// The handlers of one priority, in the order in which they stand.
pub open spec fn of_priority(handlers: Seq<Handler>, priority: u8) -> Seq<Handler> {
    handlers.filter(|handler: Handler| handler.priority == priority)
}

/// Keeps the candidates that loaded, in the order of discovery.
pub fn keep_loaded<T>(candidates: Vec<Result<T, LoadError>>) -> (kept: Vec<T>)
    ensures
        kept@ == loaded(candidates@),
{
    let ghost all = candidates@;
    let mut kept: Vec<T> = Vec::new();
    for candidate in it: candidates
        invariant
            kept@ == loaded(all.take(it.index())),
            it.seq() == all,
    {
        proof {
            assert(all.take(it.index() + 1).drop_last() =~= all.take(it.index() as int));
        }
        match candidate {
            Ok(item) => kept.push(item),
            Err(_) => {},
        }
    }
    proof {
        assert(all.take(all.len() as int) =~= all);
    }
    kept
}

/// Where a handler of priority `priority` goes among handlers in ascending
/// order: behind every handler that is tried no later, before every other.
pub open spec fn slot(handlers: Seq<Handler>, priority: u8, at: int) -> bool {
    &&& 0 <= at <= handlers.len()
    &&& forall|j: int| 0 <= j < at ==> (#[trigger] handlers[j]).priority <= priority
    &&& forall|j: int| at <= j < handlers.len() ==> (#[trigger] handlers[j]).priority > priority
}

/// Putting a handler into its slot keeps the order ascending and, for every
/// priority, leaves the handlers of that priority as they stood, the new one
/// last among its own.
pub proof fn slot_keeps_order(handlers: Seq<Handler>, handler: Handler, at: int)
    requires
        ascending(handlers),
        slot(handlers, handler.priority, at),
    ensures
        ascending(handlers.insert(at, handler)),
        forall|priority: u8| #[trigger]
            of_priority(handlers.insert(at, handler), priority) == of_priority(
                handlers.push(handler),
                priority,
            ),
{
    let after = handlers.insert(at, handler);
    assert forall|i: int, j: int| 0 <= i < j < after.len() implies (#[trigger] after[i]).priority
        <= (#[trigger] after[j]).priority by {
        if i < at && j > at {
            assert(after[i] == handlers[i]);
            assert(after[j] == handlers[j - 1]);
        } else if i < at && j < at {
            assert(after[i] == handlers[i]);
            assert(after[j] == handlers[j]);
        } else if i > at {
            assert(after[i] == handlers[i - 1]);
            assert(after[j] == handlers[j - 1]);
        } else if i == at {
            assert(after[j] == handlers[j - 1]);
        } else {
            assert(after[i] == handlers[i]);
        }
    }
    assert forall|priority: u8| #[trigger]
        of_priority(after, priority) == of_priority(handlers.push(handler), priority) by {
        let pred = |h: Handler| h.priority == priority;
        let front = handlers.take(at);
        let back = handlers.skip(at);
        assert(after =~= front.push(handler) + back);
        assert(handlers =~= front + back);
        Seq::filter_distributes_over_add(front.push(handler), back, pred);
        Seq::filter_distributes_over_add(front, back, pred);
        front.lemma_filter_push(handler, pred);
        handlers.lemma_filter_push(handler, pred);
        if handler.priority == priority {
            assert forall|j: int| 0 <= j < back.len() implies !pred(#[trigger] back[j]) by {
                assert(back[j] == handlers[at + j]);
            }
            nothing_passes(back, pred);
            assert(front.filter(pred).push(handler) + Seq::<Handler>::empty() =~= (front.filter(
                pred,
            ) + Seq::<Handler>::empty()).push(handler));
        }
    }
}

/// Sorts handlers by priority, ascending; handlers of one priority keep the
/// order in which they came.
pub fn sort_by_priority(handlers: Vec<Handler>) -> (sorted: Vec<Handler>)
    ensures
        ascending(sorted@),
        sorted@.len() == handlers@.len(),
        forall|priority: u8| #[trigger]
            of_priority(sorted@, priority) == of_priority(handlers@, priority),
{
    let ghost all = handlers@;
    let mut sorted: Vec<Handler> = Vec::new();
    for handler in it: handlers
        invariant
            it.seq() == all,
            ascending(sorted@),
            sorted@.len() == it.index(),
            forall|priority: u8| #[trigger]
                of_priority(sorted@, priority) == of_priority(all.take(it.index()), priority),
    {
        let mut at: usize = 0;
        while at < sorted.len() && sorted[at].priority <= handler.priority
            invariant
                at <= sorted.len(),
                ascending(sorted@),
                forall|j: int| 0 <= j < at ==> (#[trigger] sorted@[j]).priority <= handler.priority,
            decreases sorted.len() - at,
        {
            at += 1;
        }
        proof {
            assert forall|j: int| at <= j < sorted@.len() implies (#[trigger] sorted@[j]).priority
                > handler.priority by {
                assert(sorted@[at as int].priority <= sorted@[j].priority || j == at);
            }
            slot_keeps_order(sorted@, handler, at as int);
            assert(all.take(it.index() + 1) =~= all.take(it.index() as int).push(handler));
            assert forall|priority: u8| #[trigger]
                of_priority(sorted@.insert(at as int, handler), priority) == of_priority(
                    all.take(it.index() + 1),
                    priority,
                ) by {
                let pred = |h: Handler| h.priority == priority;
                sorted@.lemma_filter_push(handler, pred);
                all.take(it.index() as int).lemma_filter_push(handler, pred);
                assert(of_priority(sorted@, priority) == of_priority(
                    all.take(it.index() as int),
                    priority,
                ));
            }
        }
        sorted.insert(at, handler);
    }
    proof {
        assert(all.take(all.len() as int) =~= all);
    }
    sorted
}

/// The handlers that loaded, sorted by priority, ascending; handlers of one
/// priority stand in the order of discovery. A candidate that failed to load
/// is left out and fails nothing.
pub fn init_handlers(candidates: Vec<Result<Handler, LoadError>>) -> (handlers: Vec<Handler>)
    ensures
        ascending(handlers@),
        handlers@.len() == loaded(candidates@).len(),
        forall|priority: u8| #[trigger]
            of_priority(handlers@, priority) == of_priority(loaded(candidates@), priority),
{
    sort_by_priority(keep_loaded(candidates))
}

/// The plugins that loaded, in the order of discovery. A candidate that
/// failed to load is left out and fails nothing.
pub fn init_plugins(candidates: Vec<Result<Plugin, LoadError>>) -> (plugins: Vec<Plugin>)
    ensures
        plugins@ == loaded(candidates@),
{
    keep_loaded(candidates)
}

/// The handlers whose priority is at most `limit`, in the order in which they
/// stand. There are none for a negative `limit`.
pub open spec fn up_to_priority(handlers: Seq<Handler>, limit: int) -> Seq<Handler> {
    handlers.filter(|handler: Handler| handler.priority <= limit)
}

/// The handlers of each priority from 0 to `limit`, one priority after the
/// other.
pub open spec fn by_priority(handlers: Seq<Handler>, limit: int) -> Seq<Handler>
    decreases limit + 1,
{
    if limit < 0 || limit > u8::MAX {
        Seq::empty()
    } else {
        by_priority(handlers, limit - 1) + of_priority(handlers, limit as u8)
    }
}

/// In ascending order, the handlers of priority at most `limit` are those of
/// priority below `limit` and then those of priority `limit`.
proof fn ascending_splits_at(handlers: Seq<Handler>, limit: int)
    requires
        ascending(handlers),
        0 <= limit <= u8::MAX,
    ensures
        up_to_priority(handlers, limit) == up_to_priority(handlers, limit - 1) + of_priority(
            handlers,
            limit as u8,
        ),
    decreases handlers.len(),
{
    let le = |handler: Handler| handler.priority <= limit;
    let lt = |handler: Handler| handler.priority <= limit - 1;
    let eq = |handler: Handler| handler.priority == limit as u8;
    reveal(Seq::filter);
    if handlers.len() > 0 {
        let shorter = handlers.drop_last();
        let last = handlers.last();
        assert forall|i: int, j: int| 0 <= i < j < shorter.len() implies (
        #[trigger] shorter[i]).priority <= (#[trigger] shorter[j]).priority by {
            assert(shorter[i] == handlers[i]);
            assert(shorter[j] == handlers[j]);
        }
        ascending_splits_at(shorter, limit);
        if last.priority < limit {
            assert forall|j: int| 0 <= j < shorter.len() implies !eq(#[trigger] shorter[j]) by {
                assert(shorter[j] == handlers[j]);
                assert(handlers[j].priority <= handlers[handlers.len() - 1].priority);
            }
            nothing_passes(shorter, eq);
            assert(shorter.filter(lt).push(last) + Seq::<Handler>::empty() =~= (shorter.filter(lt)
                + Seq::<Handler>::empty()).push(last));
        } else if last.priority == limit {
            assert(shorter.filter(lt) + shorter.filter(eq).push(last) =~= (shorter.filter(lt)
                + shorter.filter(eq)).push(last));
        }
    } else {
        assert(handlers.filter(le) =~= handlers.filter(lt) + handlers.filter(eq));
    }
}

/// Handlers in ascending order are the handlers of each priority, one
/// priority after the other.
proof fn ascending_is_by_priority(handlers: Seq<Handler>, limit: int)
    requires
        ascending(handlers),
        -1 <= limit <= u8::MAX,
    ensures
        up_to_priority(handlers, limit) == by_priority(handlers, limit),
    decreases limit + 1,
{
    if limit < 0 {
        let below = |handler: Handler| handler.priority <= limit;
        assert forall|i: int| 0 <= i < handlers.len() implies !below(#[trigger] handlers[i]) by {}
        nothing_passes(handlers, below);
    } else {
        ascending_is_by_priority(handlers, limit - 1);
        ascending_splits_at(handlers, limit);
    }
}

/// A filter that no item passes leaves nothing.
proof fn nothing_passes(handlers: Seq<Handler>, pred: spec_fn(Handler) -> bool)
    requires
        forall|i: int| 0 <= i < handlers.len() ==> !pred(#[trigger] handlers[i]),
    ensures
        handlers.filter(pred) == Seq::<Handler>::empty(),
    decreases handlers.len(),
{
    reveal(Seq::filter);
    if handlers.len() > 0 {
        let shorter = handlers.drop_last();
        assert forall|i: int| 0 <= i < shorter.len() implies !pred(#[trigger] shorter[i]) by {
            assert(shorter[i] == handlers[i]);
        }
        nothing_passes(shorter, pred);
        assert(handlers.last() == handlers[handlers.len() - 1]);
    }
}

/// A filter that every item passes leaves everything.
proof fn everything_passes(handlers: Seq<Handler>, pred: spec_fn(Handler) -> bool)
    requires
        forall|i: int| 0 <= i < handlers.len() ==> pred(#[trigger] handlers[i]),
    ensures
        handlers.filter(pred) == handlers,
    decreases handlers.len(),
{
    reveal(Seq::filter);
    if handlers.len() > 0 {
        let shorter = handlers.drop_last();
        assert forall|i: int| 0 <= i < shorter.len() implies pred(#[trigger] shorter[i]) by {
            assert(shorter[i] == handlers[i]);
        }
        everything_passes(shorter, pred);
        assert(handlers.last() == handlers[handlers.len() - 1]);
        assert(shorter.push(handlers.last()) =~= handlers);
    }
}

/// Listing the handlers priority by priority takes no more than the handlers
/// of each priority.
proof fn by_priority_depends_on_groups(left: Seq<Handler>, right: Seq<Handler>, limit: int)
    requires
        forall|priority: u8| #[trigger] of_priority(left, priority) == of_priority(right, priority),
    ensures
        by_priority(left, limit) == by_priority(right, limit),
    decreases limit + 1,
{
    if 0 <= limit <= u8::MAX {
        by_priority_depends_on_groups(left, right, limit - 1);
        assert(of_priority(left, limit as u8) == of_priority(right, limit as u8));
    }
}

/// The order of the registry is the only one: two sequences in ascending
/// order that hold, for every priority, the same handlers in the same order
/// are the same sequence.
pub proof fn order_is_unique(left: Seq<Handler>, right: Seq<Handler>)
    requires
        ascending(left),
        ascending(right),
        forall|priority: u8| #[trigger] of_priority(left, priority) == of_priority(right, priority),
    ensures
        left == right,
{
    let all = |handler: Handler| handler.priority <= u8::MAX as int;
    everything_passes(left, all);
    everything_passes(right, all);
    ascending_is_by_priority(left, u8::MAX as int);
    ascending_is_by_priority(right, u8::MAX as int);
    by_priority_depends_on_groups(left, right, u8::MAX as int);
}

} // verus!
