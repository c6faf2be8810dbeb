//! Routing: each identifier goes to the first handler that recognises it.

use crate::error::HandlerError;
use crate::handler::{Handler, Record};
use vstd::prelude::*;

verus! {

/// The handler that was asked for by name is not in the registry.
#[derive(Debug, PartialEq, Eq)]
pub enum DispatchError {
    HandlerNotFoundError(String),
}

/// What a resolution does next, once a handler has replied to the question
/// whether the identifier is its own.
#[derive(Debug, PartialEq, Eq)]
pub enum Step {
    /// Ask handler `handler` for the metadata of `canonical`.
    Retrieve { handler: usize, canonical: String },
    /// Ask handler `handler` whether the identifier is its own.
    Ask { handler: usize },
    /// Give the identifier up.
    Drop,
}

/// What follows the reply of handler `at`, one of `count` handlers.
///
/// A handler that recognises the identifier is asked for its metadata. One
/// that does not, or that fails, is passed over: the next handler is asked
/// where the resolution guesses and there is a next one, and the identifier
/// is given up otherwise.
pub open spec fn decided(
    reply: Result<Option<String>, HandlerError>,
    at: usize,
    count: usize,
    guessing: bool,
) -> Step {
    match reply {
        Ok(Some(canonical)) => Step::Retrieve { handler: at, canonical },
        _ => if guessing && at + 1 < count {
            Step::Ask { handler: (at + 1) as usize }
        } else {
            Step::Drop
        },
    }
}

/// Decides what follows the reply of handler `at`, one of `count` handlers.
pub fn next_step(
    reply: Result<Option<String>, HandlerError>,
    at: usize,
    count: usize,
    guessing: bool,
) -> (step: Step)
    requires
        at < count,
    ensures
        step == decided(reply, at, count, guessing),
{
    match reply {
        Ok(Some(canonical)) => Step::Retrieve { handler: at, canonical },
        _ => if guessing && at + 1 < count {
            Step::Ask { handler: at + 1 }
        } else {
            Step::Drop
        },
    }
}

/// The record that a retrieval leaves: the metadata, or nothing where the
/// retrieval failed.
pub open spec fn keeping(outcome: Result<Record, HandlerError>) -> Option<Record> {
    match outcome {
        Ok(found) => Some(found),
        Err(_) => None,
    }
}

/// Keeps the metadata of a retrieval and drops a failure.
pub fn kept(outcome: Result<Record, HandlerError>) -> (record: Option<Record>)
    ensures
        record == keeping(outcome),
{
    match outcome {
        Ok(found) => Some(found),
        Err(_) => None,
    }
}

/// Once a handler has recognised the identifier no handler is asked again,
/// in either way of resolving: what follows is the retrieval by that
/// handler.
pub proof fn a_match_ends_the_asking(canonical: String, at: usize, count: usize, guessing: bool)
    ensures
        decided(Ok(Some(canonical)), at, count, guessing) == (Step::Retrieve {
            handler: at,
            canonical,
        }),
        !(decided(Ok(Some(canonical)), at, count, guessing) is Ask),
{
}

/// Nothing is retrieved from a handler that did not recognise the
/// identifier, and the only handler asked next is the one that follows, so
/// that the handlers are asked in their order and none twice.
pub proof fn a_miss_moves_on_in_order(
    reply: Result<Option<String>, HandlerError>,
    at: usize,
    count: usize,
    guessing: bool,
)
    requires
        at < count,
        !(reply matches Ok(Some(_))),
    ensures
        !(decided(reply, at, count, guessing) is Retrieve),
        decided(reply, at, count, guessing) matches Step::Ask { handler } ==> guessing && handler
            == at + 1 && handler < count,
        decided(reply, at, count, guessing) is Drop <==> !guessing || at + 1 == count,
{
}

/// One call that a resolution made of a handler, and what came back.
pub enum Call {
    /// Handler `handler` was asked whether `id` is its own.
    Parse { handler: int, id: Seq<char>, reply: Result<Option<String>, HandlerError> },
    /// Handler `handler` was asked for the metadata of `canonical`.
    Fetch { handler: int, canonical: String, outcome: Result<Record, HandlerError> },
}

/// Whether `call` asked handler `handler` about `id` and the handler did not
/// recognise it: it said so, or it failed.
pub open spec fn is_miss(call: Call, handler: int, id: Seq<char>) -> bool {
    &&& call matches Call::Parse { handler: asked, id: sent, reply }
    &&& asked == handler
    &&& sent == id
    &&& !(reply matches Ok(Some(_)))
}

/// Whether `first` and `second` are the two calls by which handler `handler`
/// recognised `id` and was then asked for the metadata of the canonical
/// identifier that it gave, and `record` is what that left.
pub open spec fn is_hit(
    first: Call,
    second: Call,
    handler: int,
    id: Seq<char>,
    record: Option<Record>,
) -> bool {
    &&& first matches Call::Parse { handler: asked, id: sent, reply: Ok(Some(canonical)) }
    &&& asked == handler
    &&& sent == id
    &&& second matches Call::Fetch { handler: fetched, canonical: handed, outcome }
    &&& fetched == handler
    &&& handed == canonical
    &&& record == keeping(outcome)
}

/// The calls of a resolution of `id` by one named handler, and its outcome:
/// the handler is asked once; if it recognises the identifier it is asked
/// for the metadata, and the identifier is dropped otherwise.
pub open spec fn explicit_run(
    calls: Seq<Call>,
    handler: int,
    id: Seq<char>,
    record: Option<Record>,
) -> bool {
    ||| calls.len() == 1 && is_miss(calls[0], handler, id) && record is None
    ||| calls.len() == 2 && is_hit(calls[0], calls[1], handler, id, record)
}

/// The calls of a resolution of `id` by guessing among `count` handlers, and
/// its outcome: the handlers are asked in order until one recognises the
/// identifier; that one is asked for the metadata and no other handler is
/// called after it. The identifier is dropped if none recognises it or the
/// metadata cannot be had.
pub open spec fn guess_run(
    calls: Seq<Call>,
    count: int,
    id: Seq<char>,
    record: Option<Record>,
) -> bool {
    ||| none_recognised(calls, count, id) && record is None
    ||| exists|winner: int| recognised_by(calls, count, id, record, winner)
}

/// Whether `calls` asked each of `count` handlers about `id` in order and
/// none of them recognised it.
pub open spec fn none_recognised(calls: Seq<Call>, count: int, id: Seq<char>) -> bool {
    &&& calls.len() == count
    &&& forall|i: int| 0 <= i < count ==> is_miss(#[trigger] calls[i], i, id)
}

/// Whether `calls` asked the handlers before `winner` about `id` in order,
/// none of which recognised it, then handler `winner`, which did, and last
/// that handler for the metadata, with `record` as the outcome.
pub open spec fn recognised_by(
    calls: Seq<Call>,
    count: int,
    id: Seq<char>,
    record: Option<Record>,
    winner: int,
) -> bool {
    &&& 0 <= winner < count
    &&& calls.len() == winner + 2
    &&& forall|i: int| 0 <= i < winner ==> is_miss(#[trigger] calls[i], i, id)
    &&& is_hit(calls[winner], calls[winner + 1], winner, id, record)
}

/// The index of the first handler named `name`, if there is one.
pub fn find_handler(handlers: &Vec<Handler>, name: &String) -> (found: Option<usize>)
    ensures
        match found {
            Some(at) => {
                &&& at < handlers.len()
                &&& handlers[at as int].name@ == name@
                &&& forall|j: int| 0 <= j < at ==> (#[trigger] handlers[j]).name@ != name@
            },
            None => forall|j: int| 0 <= j < handlers.len() ==> (#[trigger] handlers[j]).name@
                != name@,
        },
{
    let mut at: usize = 0;
    while at < handlers.len()
        invariant
            at <= handlers.len(),
            forall|j: int| 0 <= j < at ==> (#[trigger] handlers[j]).name@ != name@,
        decreases handlers.len() - at,
    {
        if handlers[at].name == *name {
            return Some(at);
        }
        at += 1;
    }
    None
}

/// Resolves one identifier with the handler at `at`: the metadata if the
/// handler recognises the identifier and retrieves it, and the calls made.
pub fn resolve_with(id: &String, handlers: &Vec<Handler>, at: usize) -> (resolved: (
    Option<Record>,
    Ghost<Seq<Call>>,
))
    requires
        at < handlers.len(),
    ensures
        explicit_run(resolved.1@, at as int, id@, resolved.0),
{
    let reply = handlers[at].parse(id.clone());
    let ghost first = Call::Parse { handler: at as int, id: id@, reply };
    match next_step(reply, at, handlers.len(), false) {
        Step::Retrieve { handler, canonical } => {
            let ghost handed = canonical;
            let outcome = handlers[handler].fetch(canonical);
            let ghost second = Call::Fetch { handler: at as int, canonical: handed, outcome };
            let record = kept(outcome);
            let ghost both = seq![first, second];
            let calls = Ghost(both);
            (record, calls)
        },
        _ => {
            let ghost only = seq![first];
            let calls = Ghost(only);
            (None, calls)
        },
    }
}

/// Resolves one identifier by guessing: the metadata from the first handler
/// that recognises the identifier, and the calls made.
pub fn resolve_guess(id: &String, handlers: &Vec<Handler>) -> (resolved: (
    Option<Record>,
    Ghost<Seq<Call>>,
))
    ensures
        guess_run(resolved.1@, handlers.len() as int, id@, resolved.0),
{
    let ghost mut calls: Seq<Call> = Seq::empty();
    let count = handlers.len();
    if count == 0 {
        let calls = Ghost(calls);
        return (None, calls);
    }
    let mut at: usize = 0;
    loop
        invariant
            at < count,
            count == handlers.len(),
            calls.len() == at,
            forall|i: int| 0 <= i < at ==> is_miss(#[trigger] calls[i], i, id@),
        decreases count - at,
    {
        let reply = handlers[at].parse(id.clone());
        let ghost first = Call::Parse { handler: at as int, id: id@, reply };
        let ghost asked = calls.push(first);
        proof {
            if !(reply matches Ok(Some(_))) {
                assert forall|i: int| 0 <= i < at + 1 implies is_miss(#[trigger] asked[i], i, id@) by {
                    if i < at {
                        assert(asked[i] == calls[i]);
                    }
                }
            }
        }
        match next_step(reply, at, count, true) {
            Step::Retrieve { handler, canonical } => {
                let ghost handed = canonical;
                let outcome = handlers[handler].fetch(canonical);
                let ghost second = Call::Fetch { handler: at as int, canonical: handed, outcome };
                let record = kept(outcome);
                let ghost all = asked.push(second);
                proof {
                    assert forall|i: int| 0 <= i < at implies is_miss(#[trigger] all[i], i, id@) by {
                        assert(all[i] == calls[i]);
                    }
                    assert(recognised_by(all, count as int, id@, record, at as int));
                }
                let all = Ghost(all);
                return (record, all);
            },
            Step::Ask { handler } => {
                proof {
                    calls = asked;
                }
                at = handler;
            },
            Step::Drop => {
                let asked = Ghost(asked);
                return (None, asked);
            },
        }
    }
}

/// The resolution of one identifier: the calls made and the outcome.
pub struct Resolution {
    pub calls: Seq<Call>,
    pub record: Option<Record>,
}

/// The records of the identifiers that were resolved, in the order of the
/// identifiers; an identifier without a record leaves no trace.
pub open spec fn collected(resolutions: Seq<Resolution>) -> Seq<Record>
    decreases resolutions.len(),
{
    if resolutions.len() == 0 {
        Seq::empty()
    } else {
        match resolutions.last().record {
            Some(record) => collected(resolutions.drop_last()).push(record),
            None => collected(resolutions.drop_last()),
        }
    }
}

/// Whether `at` is the index of the first handler named `name`.
pub open spec fn names_first(handlers: Seq<Handler>, name: Seq<char>, at: int) -> bool {
    &&& 0 <= at < handlers.len()
    &&& handlers[at].name@ == name
    &&& forall|j: int| 0 <= j < at ==> (#[trigger] handlers[j]).name@ != name
}

/// Whether no handler is named `name`.
pub open spec fn names_none(handlers: Seq<Handler>, name: Seq<char>) -> bool {
    forall|j: int| 0 <= j < handlers.len() ==> (#[trigger] handlers[j]).name@ != name
}

/// There are no more records than resolutions.
pub proof fn collected_is_no_longer(resolutions: Seq<Resolution>)
    ensures
        collected(resolutions).len() <= resolutions.len(),
    decreases resolutions.len(),
{
    if resolutions.len() > 0 {
        collected_is_no_longer(resolutions.drop_last());
    }
}

/// The records of a run are those of its first part and then those of the
/// rest: no resolution touches what another one left.
pub proof fn collected_in_parts(first: Seq<Resolution>, rest: Seq<Resolution>)
    ensures
        collected(first + rest) == collected(first) + collected(rest),
    decreases rest.len(),
{
    if rest.len() == 0 {
        assert(first + rest =~= first);
        assert(collected(first) + collected(rest) =~= collected(first));
    } else {
        let whole = first + rest;
        assert(whole.drop_last() =~= first + rest.drop_last());
        assert(whole.last() == rest.last());
        collected_in_parts(first, rest.drop_last());
        match rest.last().record {
            Some(record) => {
                assert(collected(first) + collected(rest.drop_last()).push(record) =~= (collected(
                    first,
                ) + collected(rest.drop_last())).push(record));
            },
            None => {},
        }
    }
}

/// There are as many records as there are resolutions that left one.
pub proof fn collected_counts_the_resolved(resolutions: Seq<Resolution>)
    ensures
        collected(resolutions).len() == resolutions.filter(
            |resolution: Resolution| resolution.record is Some,
        ).len(),
    decreases resolutions.len(),
{
    reveal(Seq::filter);
    if resolutions.len() > 0 {
        collected_counts_the_resolved(resolutions.drop_last());
    }
}

/// An identifier that is dropped takes nothing with it: the records of a
/// run in which one resolution failed are the records of the others, as if
/// that identifier had not been there; and one that is resolved adds its
/// record at its place.
pub proof fn a_drop_removes_only_its_own(
    before: Seq<Resolution>,
    one: Resolution,
    after: Seq<Resolution>,
)
    ensures
        collected(before + seq![one] + after) == match one.record {
            Some(record) => collected(before) + seq![record] + collected(after),
            None => collected(before + after),
        },
{
    collected_in_parts(before + seq![one], after);
    collected_in_parts(before, seq![one]);
    collected_in_parts(before, after);
    let single = seq![one];
    assert(single.drop_last() =~= Seq::<Resolution>::empty());
    assert(single.last() == one);
    assert(collected(single.drop_last()) =~= Seq::<Record>::empty());
    match one.record {
        Some(record) => {
            assert(collected(single) =~= seq![record]);
        },
        None => {
            assert(collected(single) =~= Seq::<Record>::empty());
            assert(collected(before) + collected(single) =~= collected(before));
        },
    }
}

/// Routes every identifier to a handler and gathers the records.
///
/// With a handler named in `explicit`, the first handler of that name
/// resolves every identifier, and the run fails as a whole if there is no
/// such handler. Without one, each identifier goes to the first handler, in
/// the order of `handlers`, that recognises it. An identifier that no handler
/// resolves is left out and fails nothing else.
pub fn dispatch(identifiers: &Vec<String>, handlers: &Vec<Handler>, explicit: Option<&String>) -> (run:
    (Result<Vec<Record>, DispatchError>, Ghost<Seq<Resolution>>))
    ensures
        match run.0 {
            Err(DispatchError::HandlerNotFoundError(missing)) => explicit matches Some(name)
                && missing@ == name@ && names_none(handlers@, name@),
            Ok(records) => {
                &&& run.1@.len() == identifiers.len()
                &&& records@ == collected(run.1@)
                &&& records@.len() <= identifiers.len()
                &&& match explicit {
                    Some(name) => exists|at: int|
                        {
                            &&& #[trigger] names_first(handlers@, name@, at)
                            &&& forall|i: int|
                                0 <= i < run.1@.len() ==> explicit_run(
                                    (#[trigger] run.1@[i]).calls,
                                    at,
                                    identifiers[i]@,
                                    run.1@[i].record,
                                )
                        },
                    None => forall|i: int|
                        0 <= i < run.1@.len() ==> guess_run(
                            (#[trigger] run.1@[i]).calls,
                            handlers.len() as int,
                            identifiers[i]@,
                            run.1@[i].record,
                        ),
                }
            },
        },
{
    let chosen: Option<usize> = match explicit {
        Some(name) => match find_handler(handlers, name) {
            Some(at) => Some(at),
            None => {
                let nothing = Ghost(Seq::empty());
                return (Err(DispatchError::HandlerNotFoundError(name.clone())), nothing);
            },
        },
        None => None,
    };
    let ghost mut resolutions: Seq<Resolution> = Seq::empty();
    let mut records: Vec<Record> = Vec::new();
    let mut i: usize = 0;
    while i < identifiers.len()
        invariant
            i <= identifiers.len(),
            resolutions.len() == i,
            records@ == collected(resolutions),
            match explicit {
                Some(name) => chosen matches Some(at) && names_first(handlers@, name@, at as int),
                None => chosen is None,
            },
            forall|k: int|
                0 <= k < i ==> match chosen {
                    Some(at) => explicit_run(
                        (#[trigger] resolutions[k]).calls,
                        at as int,
                        identifiers[k]@,
                        resolutions[k].record,
                    ),
                    None => guess_run(
                        resolutions[k].calls,
                        handlers.len() as int,
                        identifiers[k]@,
                        resolutions[k].record,
                    ),
                },
        decreases identifiers.len() - i,
    {
        let (record, calls) = match chosen {
            Some(at) => resolve_with(&identifiers[i], handlers, at),
            None => resolve_guess(&identifiers[i], handlers),
        };
        proof {
            let longer = resolutions.push(Resolution { calls: calls@, record });
            assert(longer.drop_last() =~= resolutions);
            assert forall|k: int| 0 <= k < i + 1 implies match chosen {
                Some(at) => explicit_run(
                    (#[trigger] longer[k]).calls,
                    at as int,
                    identifiers[k]@,
                    longer[k].record,
                ),
                None => guess_run(
                    longer[k].calls,
                    handlers.len() as int,
                    identifiers[k]@,
                    longer[k].record,
                ),
            } by {
                if k < i {
                    assert(longer[k] == resolutions[k]);
                }
            }
            resolutions = longer;
        }
        match record {
            Some(record) => records.push(record),
            None => {},
        }
        i += 1;
    }
    proof {
        collected_is_no_longer(resolutions);
    }
    let resolutions = Ghost(resolutions);
    (Ok(records), resolutions)
}

/// Whether `call` is the reply by which a handler recognised the identifier.
pub open spec fn is_match(call: Call) -> bool {
    call matches Call::Parse { reply: Ok(Some(_)), .. }
}

/// The handler that `call` was made of.
pub open spec fn callee(call: Call) -> int {
    match call {
        Call::Parse { handler, .. } => handler,
        Call::Fetch { handler, .. } => handler,
    }
}

/// In a resolution by guessing, nothing is asked of any other handler once
/// a handler has recognised the identifier: the one call that follows is the
/// retrieval by that same handler, and it is the last.
pub proof fn no_call_after_match(
    calls: Seq<Call>,
    count: int,
    id: Seq<char>,
    record: Option<Record>,
    earlier: int,
    later: int,
)
    requires
        guess_run(calls, count, id, record),
        0 <= earlier < later < calls.len(),
        is_match(calls[earlier]),
    ensures
        calls[later] is Fetch,
        callee(calls[later]) == callee(calls[earlier]),
        later == earlier + 1,
        later == calls.len() - 1,
{
    if none_recognised(calls, count, id) {
        assert(is_miss(calls[earlier], earlier, id));
    } else {
        let winner = choose|winner: int| recognised_by(calls, count, id, record, winner);
        if earlier < winner {
            assert(is_miss(calls[earlier], earlier, id));
        }
    }
}

/// In a resolution by guessing, the handlers are asked in their order: the
/// call at position `at` that asks whether the identifier is a handler's own
/// asks the handler at position `at` about that identifier, and every
/// handler before it has been asked and has not recognised the identifier.
pub proof fn handlers_are_asked_in_order(
    calls: Seq<Call>,
    count: int,
    id: Seq<char>,
    record: Option<Record>,
    at: int,
)
    requires
        guess_run(calls, count, id, record),
        0 <= at < calls.len(),
        calls[at] is Parse,
    ensures
        callee(calls[at]) == at,
        calls[at]->Parse_id == id,
        at < count,
        forall|i: int| 0 <= i < at ==> is_miss(#[trigger] calls[i], i, id),
{
    if none_recognised(calls, count, id) {
        assert(is_miss(calls[at], at, id));
    } else {
        let winner = choose|winner: int| recognised_by(calls, count, id, record, winner);
        if at < winner {
            assert(is_miss(calls[at], at, id));
        }
    }
}

/// In a resolution by guessing, metadata is asked for at most once: of the
/// handler that recognised the identifier, with the canonical identifier
/// that it gave, right after it gave it.
pub proof fn metadata_is_asked_of_the_match(
    calls: Seq<Call>,
    count: int,
    id: Seq<char>,
    record: Option<Record>,
    at: int,
)
    requires
        guess_run(calls, count, id, record),
        0 <= at < calls.len(),
        calls[at] is Fetch,
    ensures
        at == calls.len() - 1,
        at >= 1,
        is_hit(calls[at - 1], calls[at], at - 1, id, record),
        forall|i: int| 0 <= i < at ==> (#[trigger] calls[i]) is Parse,
{
    if none_recognised(calls, count, id) {
        assert(is_miss(calls[at], at, id));
    } else {
        let winner = choose|winner: int| recognised_by(calls, count, id, record, winner);
        if at < winner {
            assert(is_miss(calls[at], at, id));
        }
        assert forall|i: int| 0 <= i < at implies (#[trigger] calls[i]) is Parse by {
            if i < winner {
                assert(is_miss(calls[i], i, id));
            }
        }
    }
}

/// How handlers answer while nothing changes their state: each reply is a
/// function of the handler and of what it is asked.
pub struct Behaviour {
    pub parse: spec_fn(int, Seq<char>) -> Result<Option<String>, HandlerError>,
    pub fetch: spec_fn(int, String) -> Result<Record, HandlerError>,
}

/// Whether every reply among `calls` is the one that `behaviour` gives.
pub open spec fn follows(calls: Seq<Call>, behaviour: Behaviour) -> bool {
    forall|i: int|
        0 <= i < calls.len() ==> match #[trigger] calls[i] {
            Call::Parse { handler, id, reply } => reply == (behaviour.parse)(handler, id),
            Call::Fetch { handler, canonical, outcome } => outcome == (behaviour.fetch)(
                handler,
                canonical,
            ),
        }
}

/// Resolving one identifier twice by guessing, while the handlers answer as
/// before, makes the same calls and gives the same record.
pub proof fn guessing_twice_gives_the_same(
    first: Seq<Call>,
    second: Seq<Call>,
    count: int,
    id: Seq<char>,
    one: Option<Record>,
    other: Option<Record>,
    behaviour: Behaviour,
)
    requires
        guess_run(first, count, id, one),
        guess_run(second, count, id, other),
        follows(first, behaviour),
        follows(second, behaviour),
    ensures
        one == other,
        first == second,
{
    if none_recognised(first, count, id) {
        if none_recognised(second, count, id) {
            assert forall|i: int| 0 <= i < count implies first[i] == second[i] by {
                assert(is_miss(first[i], i, id));
                assert(is_miss(second[i], i, id));
            }
            assert(first =~= second);
        } else {
            let winner = choose|winner: int| recognised_by(second, count, id, other, winner);
            assert(recognised_by(second, count, id, other, winner));
            assert(is_miss(first[winner], winner, id));
            assert(false);
        }
    } else {
        let winner = choose|winner: int| recognised_by(first, count, id, one, winner);
        assert(recognised_by(first, count, id, one, winner));
        if none_recognised(second, count, id) {
            assert(is_miss(second[winner], winner, id));
            assert(false);
        } else {
            let rival = choose|rival: int| recognised_by(second, count, id, other, rival);
            assert(recognised_by(second, count, id, other, rival));
            if winner < rival {
                assert(is_miss(second[winner], winner, id));
                assert(false);
            } else if rival < winner {
                assert(is_miss(first[rival], rival, id));
                assert(false);
            } else {
                assert forall|i: int| 0 <= i < first.len() implies first[i] == second[i] by {
                    if i < winner {
                        assert(is_miss(first[i], i, id));
                        assert(is_miss(second[i], i, id));
                    }
                }
                assert(first =~= second);
            }
        }
    }
}

/// Resolving one identifier twice with one named handler, while the handler
/// answers as before, makes the same calls and gives the same record.
pub proof fn asking_twice_gives_the_same(
    first: Seq<Call>,
    second: Seq<Call>,
    handler: int,
    id: Seq<char>,
    one: Option<Record>,
    other: Option<Record>,
    behaviour: Behaviour,
)
    requires
        explicit_run(first, handler, id, one),
        explicit_run(second, handler, id, other),
        follows(first, behaviour),
        follows(second, behaviour),
    ensures
        one == other,
        first == second,
{
    assert(first[0] == second[0]);
    if first.len() == 2 {
        assert(first[1] == second[1]);
    }
    assert(first =~= second);
}

} // verus!
