//! The process that is recorded as the gateway, and how the record is brought
//! up to date once the gateway listens.
//!
//! The process that was started need not be the one that listens: it may be a
//! shell that started the gateway in turn. So after a start the port is scanned
//! until a listener shows up, and the listener is recorded instead. The record
//! may change meanwhile, by a newer start or a stop: what those left stays.
use vstd::prelude::*;

verus! {

/// How often the port is scanned after a start.
pub const RESOLVE_ATTEMPTS: u32 = 30;

/// How long to wait before each scan, in milliseconds.
pub const RESOLVE_PAUSE_MILLIS: u64 = 500;

/// Records the gateway's process.
pub fn set_gateway_pid(record: &mut Option<u32>, pid: u32)
    ensures
        *final(record) == Some(pid),
{
    *record = Some(pid);
}

/// Takes the recorded process out: none is recorded afterwards.
pub fn take_gateway_pid(record: &mut Option<u32>) -> (pid: Option<u32>)
    ensures
        pid == *old(record),
        *final(record) == None::<u32>,
{
    record.take()
}

/// The recorded process.
pub fn current_gateway_pid(record: &Option<u32>) -> (pid: Option<u32>)
    ensures
        pid == *record,
{
    *record
}

/// The record once a listener was to take the place of the process that was
/// started: a record that is no longer that process stays.
pub open spec fn record_after(record: Option<u32>, expected: u32, listener: u32) -> Option<u32> {
    if record == Some(expected) {
        Some(listener)
    } else {
        record
    }
}

/// Records the listener in place of the process that was started, if that one
/// is still recorded. Tells whether it was.
pub fn record_listener(record: &mut Option<u32>, expected: u32, listener: u32) -> (written: bool)
    ensures
        written <==> *old(record) == Some(expected),
        *final(record) == record_after(*old(record), expected, listener),
{
    let own = match current_gateway_pid(record) {
        Some(pid) => pid == expected,
        None => false,
    };
    if own {
        set_gateway_pid(record, listener);
    }
    own
}

/// What is to be done next to find the process that listens. `expected` is the
/// process that was started, and `left` says how many scans are left, the next
/// one included.
#[derive(Clone, Copy, Debug, PartialEq, Eq, Structural)]
pub enum ResolveStep {
    /// Wait for [`RESOLVE_PAUSE_MILLIS`].
    Pause { expected: u32, left: u32 },
    /// Read the record.
    ReadRecord { expected: u32, left: u32 },
    /// Look for the process that listens on the gateway's port.
    ScanPort { expected: u32, left: u32 },
    /// Record the listener if the process that was started is still recorded,
    /// reading and writing the record as one (see [`record_listener`]).
    Record { expected: u32, listener: u32 },
    /// Nothing: another process is recorded by now, or none.
    Superseded { expected: u32 },
    /// Nothing: the process that was started is the one that listens.
    Confirmed { expected: u32 },
    /// Nothing: the listener was recorded.
    Replaced { expected: u32, listener: u32 },
    /// Nothing: no listener was found.
    GaveUp { expected: u32 },
}

/// What came of a step.
#[derive(Clone, Copy, Debug, PartialEq, Eq, Structural)]
pub enum ResolveReply {
    /// The pause is over.
    Paused,
    /// The process that is recorded.
    Recorded(Option<u32>),
    /// The process that listens.
    Listener(Option<u32>),
    /// Whether the listener was recorded.
    Written(bool),
}

/// The step that a search begins with.
pub open spec fn first_resolve_step(expected: u32) -> ResolveStep {
    ResolveStep::Pause { expected, left: RESOLVE_ATTEMPTS }
}

/// Whether a reply answers a step.
pub open spec fn resolve_answers(step: ResolveStep, reply: ResolveReply) -> bool {
    match step {
        ResolveStep::Pause { .. } => reply is Paused,
        ResolveStep::ReadRecord { .. } => reply is Recorded,
        ResolveStep::ScanPort { .. } => reply is Listener,
        ResolveStep::Record { .. } => reply is Written,
        _ => false,
    }
}

/// The step that follows. A reply that does not answer the step changes nothing.
pub open spec fn next_resolve_step(step: ResolveStep, reply: ResolveReply) -> ResolveStep {
    match (step, reply) {
        (
            ResolveStep::Pause { expected, left },
            ResolveReply::Paused,
        ) => ResolveStep::ReadRecord { expected, left },
        (
            ResolveStep::ReadRecord { expected, left },
            ResolveReply::Recorded(pid),
        ) => if pid == Some(expected) {
            ResolveStep::ScanPort { expected, left }
        } else {
            ResolveStep::Superseded { expected }
        },
        (
            ResolveStep::ScanPort { expected, left },
            ResolveReply::Listener(Some(listener)),
        ) => if listener == expected {
            ResolveStep::Confirmed { expected }
        } else {
            ResolveStep::Record { expected, listener }
        },
        (
            ResolveStep::ScanPort { expected, left },
            ResolveReply::Listener(None),
        ) => if left <= 1 {
            ResolveStep::GaveUp { expected }
        } else {
            ResolveStep::Pause { expected, left: (left - 1) as u32 }
        },
        (
            ResolveStep::Record { expected, listener },
            ResolveReply::Written(written),
        ) => if written {
            ResolveStep::Replaced { expected, listener }
        } else {
            ResolveStep::Superseded { expected }
        },
        _ => step,
    }
}

/// Begins the search for the process that listens, after `expected` was started.
pub fn begin_resolve(expected: u32) -> (step: ResolveStep)
    ensures
        step == first_resolve_step(expected),
{
    ResolveStep::Pause { expected, left: RESOLVE_ATTEMPTS }
}

/// Decides what is to be done next to find the process that listens.
pub fn resolve_gateway_pid_after_spawn(step: ResolveStep, reply: ResolveReply) -> (next: ResolveStep)
    ensures
        next == next_resolve_step(step, reply),
{
    match (step, reply) {
        (ResolveStep::Pause { expected, left }, ResolveReply::Paused) => {
            ResolveStep::ReadRecord { expected, left }
        },
        (ResolveStep::ReadRecord { expected, left }, ResolveReply::Recorded(recorded)) => {
            // A record that changed belongs to a newer start: leave it alone.
            match recorded {
                Some(pid) if pid == expected => ResolveStep::ScanPort { expected, left },
                _ => ResolveStep::Superseded { expected },
            }
        },
        (ResolveStep::ScanPort { expected, left }, ResolveReply::Listener(found)) => {
            match found {
                Some(listener) => if listener == expected {
                    ResolveStep::Confirmed { expected }
                } else {
                    ResolveStep::Record { expected, listener }
                },
                None => if left <= 1 {
                    ResolveStep::GaveUp { expected }
                } else {
                    ResolveStep::Pause { expected, left: left - 1 }
                },
            }
        },
        (ResolveStep::Record { expected, listener }, ResolveReply::Written(written)) => {
            if written {
                ResolveStep::Replaced { expected, listener }
            } else {
                ResolveStep::Superseded { expected }
            }
        },
        _ => step,
    }
}

/// The step that a search is at after a series of replies.
pub open spec fn resolve_run(expected: u32, replies: Seq<ResolveReply>) -> ResolveStep
    decreases replies.len(),
{
    if replies.len() == 0 {
        first_resolve_step(expected)
    } else {
        next_resolve_step(resolve_run(expected, replies.drop_last()), replies.last())
    }
}

/// The process that a search is about.
pub open spec fn expected_of(step: ResolveStep) -> u32 {
    match step {
        ResolveStep::Pause { expected, .. } => expected,
        ResolveStep::ReadRecord { expected, .. } => expected,
        ResolveStep::ScanPort { expected, .. } => expected,
        ResolveStep::Record { expected, .. } => expected,
        ResolveStep::Superseded { expected } => expected,
        ResolveStep::Confirmed { expected } => expected,
        ResolveStep::Replaced { expected, .. } => expected,
        ResolveStep::GaveUp { expected } => expected,
    }
}

/// Whether a reply says that the record is no longer the search's own.
pub open spec fn tells_superseded(step: ResolveStep, reply: ResolveReply) -> bool {
    match (step, reply) {
        (ResolveStep::ReadRecord { expected, .. }, ResolveReply::Recorded(pid)) => pid != Some(
            expected,
        ),
        (ResolveStep::Record { .. }, ResolveReply::Written(written)) => !written,
        _ => false,
    }
}

/// Once a search learns that another process is recorded, or none, be it before
/// a scan or when it is about to record the listener, it stops for good.
pub proof fn law_superseded_search_stops(
    expected: u32,
    replies: Seq<ResolveReply>,
    reply: ResolveReply,
    later: Seq<ResolveReply>,
)
    requires
        tells_superseded(resolve_run(expected, replies), reply),
    ensures
        resolve_run(expected, replies.push(reply) + later) == (ResolveStep::Superseded {
            expected,
        }),
    decreases later.len(),
{
    lemma_expected_stays(expected, replies);
    let asked = replies.push(reply);
    let all = asked + later;
    if later.len() == 0 {
        assert(all =~= asked);
        assert(asked.drop_last() =~= replies);
    } else {
        assert(all.drop_last() =~= asked + later.drop_last());
        law_superseded_search_stops(expected, replies, reply, later.drop_last());
    }
}

/// Whether taking a step while the record is `before` can give this reply and
/// leave the record as `after`: a look at the record tells what it is, and only
/// recording the listener may change it, as [`record_listener`] does.
pub open spec fn step_taken(
    step: ResolveStep,
    before: Option<u32>,
    reply: ResolveReply,
    after: Option<u32>,
) -> bool {
    &&& resolve_answers(step, reply)
    &&& match step {
        ResolveStep::ReadRecord { .. } => {
            &&& reply == ResolveReply::Recorded(before)
            &&& after == before
        },
        ResolveStep::Record { expected, listener } => {
            &&& reply == ResolveReply::Written(before == Some(expected))
            &&& after == record_after(before, expected, listener)
        },
        _ => after == before,
    }
}

/// Whether a series of replies comes of a search whose steps find the record as
/// `before` says, one by one, and leave it as `after` says. Between two steps the
/// record may change in any way.
pub open spec fn is_search(
    expected: u32,
    replies: Seq<ResolveReply>,
    before: Seq<Option<u32>>,
    after: Seq<Option<u32>>,
) -> bool {
    &&& before.len() == replies.len()
    &&& after.len() == replies.len()
    &&& forall|i: int|
        0 <= i < replies.len() ==> step_taken(
            resolve_run(expected, replies.take(i)),
            before[i],
            #[trigger] replies[i],
            after[i],
        )
}

/// A search never overwrites the record of a newer start or of a stop, whenever
/// that came, a scan under way included: a step that finds another process
/// recorded than the one that was started, or none, leaves the record as it is.
/// A step that changes the record puts the listener that was found in the place
/// of the process that was started.
pub proof fn law_search_keeps_newer_record(
    expected: u32,
    replies: Seq<ResolveReply>,
    before: Seq<Option<u32>>,
    after: Seq<Option<u32>>,
    i: int,
)
    requires
        is_search(expected, replies, before, after),
        0 <= i < replies.len(),
    ensures
        before[i] != Some(expected) ==> after[i] == before[i],
        after[i] != before[i] ==> ({
            let step = resolve_run(expected, replies.take(i));
            &&& step is Record
            &&& after[i] == Some(step->Record_listener)
        }),
        before[i] != Some(expected) && (replies[i] is Recorded || replies[i] is Written)
            ==> resolve_run(expected, replies) == (ResolveStep::Superseded { expected }),
{
    let past = replies.take(i);
    let step = resolve_run(expected, past);
    lemma_expected_stays(expected, past);
    assert(step_taken(step, before[i], replies[i], after[i]));
    if before[i] != Some(expected) && (replies[i] is Recorded || replies[i] is Written) {
        let later = replies.skip(i + 1);
        assert(replies =~= past.push(replies[i]) + later);
        law_superseded_search_stops(expected, past, replies[i], later);
    }
}

/// A search is about the process that it began with.
proof fn lemma_expected_stays(expected: u32, replies: Seq<ResolveReply>)
    ensures
        expected_of(resolve_run(expected, replies)) == expected,
    decreases replies.len(),
{
    if replies.len() > 0 {
        lemma_expected_stays(expected, replies.drop_last());
    }
}

/// A search sets about to write to the record only after it saw its own process
/// recorded and then a listener, and what it writes is that listener, which is
/// another process than the one that was started.
pub proof fn law_search_records_only_a_listener(expected: u32, replies: Seq<ResolveReply>)
    requires
        resolve_run(expected, replies) is Record,
    ensures
        ({
            let listener = resolve_run(expected, replies)->Record_listener;
            &&& listener != expected
            &&& exists|i: int, j: int|
                #![trigger replies[i], replies[j]]
                0 <= i < j < replies.len() && replies[i] == ResolveReply::Recorded(Some(expected))
                    && replies[j] == ResolveReply::Listener(Some(listener))
        }),
    decreases replies.len(),
{
    let before = replies.drop_last();
    let step = resolve_run(expected, before);
    lemma_expected_stays(expected, before);
    if step is Record {
        law_search_records_only_a_listener(expected, before);
        let listener = step->Record_listener;
        let (i, j) = choose|i: int, j: int|
            #![trigger before[i], before[j]]
            0 <= i < j < before.len() && before[i] == ResolveReply::Recorded(Some(expected))
                && before[j] == ResolveReply::Listener(Some(listener));
        assert(replies[i] == before[i] && replies[j] == before[j]);
    } else {
        lemma_scan_after_check(expected, before);
        let i = choose|i: int|
            0 <= i < before.len() && before[i] == ResolveReply::Recorded(Some(expected));
        let j = replies.len() - 1;
        assert(replies[i] == before[i]);
        assert(replies[j] == replies.last());
    }
}

/// The port is scanned only after the record was found to be the search's own.
proof fn lemma_scan_after_check(expected: u32, replies: Seq<ResolveReply>)
    requires
        resolve_run(expected, replies) is ScanPort,
    ensures
        exists|i: int|
            0 <= i < replies.len() && replies[i] == ResolveReply::Recorded(Some(expected)),
    decreases replies.len(),
{
    let before = replies.drop_last();
    let step = resolve_run(expected, before);
    lemma_expected_stays(expected, before);
    if step is ScanPort {
        lemma_scan_after_check(expected, before);
        let i = choose|i: int|
            0 <= i < before.len() && before[i] == ResolveReply::Recorded(Some(expected));
        assert(replies[i] == before[i]);
    } else {
        assert(replies[replies.len() - 1] == replies.last());
    }
}

/// How many of the replies of a search were scans that found no listener.
pub open spec fn empty_scans(expected: u32, replies: Seq<ResolveReply>) -> nat
    decreases replies.len(),
{
    if replies.len() == 0 {
        0
    } else {
        let before = replies.drop_last();
        if resolve_run(expected, before) is ScanPort && replies.last() == ResolveReply::Listener(
            None,
        ) {
            empty_scans(expected, before) + 1
        } else {
            empty_scans(expected, before)
        }
    }
}

/// A search gives up exactly when [`RESOLVE_ATTEMPTS`] scans have found no
/// listener, and it never makes more of them.
pub proof fn law_search_gives_up_after_all_scans(expected: u32, replies: Seq<ResolveReply>)
    ensures
        resolve_run(expected, replies) is GaveUp <==> empty_scans(expected, replies)
            == RESOLVE_ATTEMPTS,
        empty_scans(expected, replies) <= RESOLVE_ATTEMPTS,
{
    lemma_empty_scans(expected, replies);
}

/// The scans that found no listener and those that are left are all there are.
proof fn lemma_empty_scans(expected: u32, replies: Seq<ResolveReply>)
    ensures
        match resolve_run(expected, replies) {
            ResolveStep::Pause { left, .. } => left > 0 && empty_scans(expected, replies) + left
                == RESOLVE_ATTEMPTS,
            ResolveStep::ReadRecord { left, .. } => left > 0 && empty_scans(expected, replies)
                + left == RESOLVE_ATTEMPTS,
            ResolveStep::ScanPort { left, .. } => left > 0 && empty_scans(expected, replies) + left
                == RESOLVE_ATTEMPTS,
            ResolveStep::GaveUp { .. } => empty_scans(expected, replies) == RESOLVE_ATTEMPTS,
            _ => empty_scans(expected, replies) < RESOLVE_ATTEMPTS,
        },
    decreases replies.len(),
{
    if replies.len() > 0 {
        lemma_empty_scans(expected, replies.drop_last());
    }
}

/// The first listener that a scan finds decides the search. If it is the process
/// that was started, that process is confirmed for good. If it is another one,
/// that one is to be recorded next, and whatever follows, the search neither scans
/// again nor records another: it ends with that listener recorded or superseded.
pub proof fn law_first_listener_decides(
    expected: u32,
    replies: Seq<ResolveReply>,
    found: u32,
    later: Seq<ResolveReply>,
)
    requires
        resolve_run(expected, replies) is ScanPort,
    ensures
        resolve_run(expected, replies.push(ResolveReply::Listener(Some(found)))) == (if found
            == expected {
            ResolveStep::Confirmed { expected }
        } else {
            ResolveStep::Record { expected, listener: found }
        }),
        ({
            let end = resolve_run(
                expected,
                replies.push(ResolveReply::Listener(Some(found))) + later,
            );
            if found == expected {
                end == (ResolveStep::Confirmed { expected })
            } else {
                ||| end == (ResolveStep::Record { expected, listener: found })
                ||| end == (ResolveStep::Replaced { expected, listener: found })
                ||| end == (ResolveStep::Superseded { expected })
            }
        }),
    decreases later.len(),
{
    lemma_expected_stays(expected, replies);
    let asked = replies.push(ResolveReply::Listener(Some(found)));
    let all = asked + later;
    assert(asked.drop_last() =~= replies);
    if later.len() == 0 {
        assert(all =~= asked);
    } else {
        assert(all.drop_last() =~= asked + later.drop_last());
        law_first_listener_decides(expected, replies, found, later.drop_last());
    }
}

/// How many replies a search still takes at most.
pub open spec fn resolve_replies_left(step: ResolveStep) -> nat {
    match step {
        ResolveStep::Pause { left, .. } => 3 * left as nat + 1,
        ResolveStep::ReadRecord { left, .. } => 3 * left as nat,
        ResolveStep::ScanPort { left, .. } => (3 * left - 1) as nat,
        ResolveStep::Record { .. } => 1,
        _ => 0,
    }
}

/// A search comes to an end: each reply that answers a step brings it closer,
/// and it takes no more than three replies for each scan, and one to record.
pub proof fn law_search_ends(expected: u32, replies: Seq<ResolveReply>, reply: ResolveReply)
    requires
        resolve_answers(resolve_run(expected, replies), reply),
    ensures
        resolve_replies_left(resolve_run(expected, replies.push(reply))) < resolve_replies_left(
            resolve_run(expected, replies),
        ),
        resolve_replies_left(first_resolve_step(expected)) == 3 * RESOLVE_ATTEMPTS + 1,
{
    lemma_scans_left(expected, replies);
    assert(replies.push(reply).drop_last() =~= replies);
}

/// While a search goes on, it has a scan left.
proof fn lemma_scans_left(expected: u32, replies: Seq<ResolveReply>)
    ensures
        match resolve_run(expected, replies) {
            ResolveStep::Pause { left, .. } => left > 0,
            ResolveStep::ReadRecord { left, .. } => left > 0,
            ResolveStep::ScanPort { left, .. } => left > 0,
            _ => true,
        },
    decreases replies.len(),
{
    if replies.len() > 0 {
        lemma_scans_left(expected, replies.drop_last());
    }
}

/// What a search is answered in a number of rounds in which its own process is
/// recorded and nothing listens.
pub open spec fn empty_rounds(expected: u32, rounds: nat) -> Seq<ResolveReply>
    decreases rounds,
{
    if rounds == 0 {
        Seq::empty()
    } else {
        empty_rounds(expected, (rounds - 1) as nat) + seq![
            ResolveReply::Paused,
            ResolveReply::Recorded(Some(expected)),
            ResolveReply::Listener(None),
        ]
    }
}

/// A search that is left alone goes on for thirty rounds, and gives up then.
pub proof fn law_search_goes_on_for_thirty_rounds(expected: u32, rounds: nat)
    requires
        rounds <= 30,
    ensures
        rounds < 30 ==> resolve_run(expected, empty_rounds(expected, rounds))
            == (ResolveStep::Pause { expected, left: (30 - rounds) as u32 }),
        rounds == 30 ==> resolve_run(expected, empty_rounds(expected, rounds))
            == (ResolveStep::GaveUp { expected }),
    decreases rounds,
{
    if rounds > 0 {
        let before = empty_rounds(expected, (rounds - 1) as nat);
        law_search_goes_on_for_thirty_rounds(expected, (rounds - 1) as nat);
        let one = before.push(ResolveReply::Paused);
        let two = one.push(ResolveReply::Recorded(Some(expected)));
        let three = two.push(ResolveReply::Listener(None));
        assert(one.drop_last() =~= before && two.drop_last() =~= one && three.drop_last() =~= two);
        let left = (31 - rounds) as u32;
        assert(resolve_run(expected, one) == (ResolveStep::ReadRecord { expected, left }));
        assert(resolve_run(expected, two) == (ResolveStep::ScanPort { expected, left }));
        assert(empty_rounds(expected, rounds) =~= three);
    }
}

/// A listener that shows up in any of the thirty rounds is recorded in place of
/// the process that was started, if it is another one and that process is still
/// recorded when it is to be written; if it is the same, that process stays.
pub proof fn law_search_finds_late_listener(expected: u32, rounds: nat, found: u32, written: bool)
    requires
        rounds < 30,
    ensures
        ({
            let end = resolve_run(
                expected,
                empty_rounds(expected, rounds) + seq![
                    ResolveReply::Paused,
                    ResolveReply::Recorded(Some(expected)),
                    ResolveReply::Listener(Some(found)),
                    ResolveReply::Written(written),
                ],
            );
            if found == expected {
                end == (ResolveStep::Confirmed { expected })
            } else if written {
                end == (ResolveStep::Replaced { expected, listener: found })
            } else {
                end == (ResolveStep::Superseded { expected })
            }
        }),
{
    let before = empty_rounds(expected, rounds);
    law_search_goes_on_for_thirty_rounds(expected, rounds);
    let one = before.push(ResolveReply::Paused);
    let two = one.push(ResolveReply::Recorded(Some(expected)));
    let three = two.push(ResolveReply::Listener(Some(found)));
    let four = three.push(ResolveReply::Written(written));
    assert(one.drop_last() =~= before && two.drop_last() =~= one);
    assert(three.drop_last() =~= two && four.drop_last() =~= three);
    let left = (30 - rounds) as u32;
    assert(resolve_run(expected, one) == (ResolveStep::ReadRecord { expected, left }));
    assert(resolve_run(expected, two) == (ResolveStep::ScanPort { expected, left }));
    assert(resolve_run(expected, three) == next_resolve_step(
        ResolveStep::ScanPort { expected, left },
        ResolveReply::Listener(Some(found)),
    ));
    assert(before + seq![
        ResolveReply::Paused,
        ResolveReply::Recorded(Some(expected)),
        ResolveReply::Listener(Some(found)),
        ResolveReply::Written(written),
    ] =~= four);
}

/// A search is superseded only if it was told that another process is recorded,
/// or none, or that its listener was not written.
pub proof fn law_search_is_superseded_only_if_told(expected: u32, replies: Seq<ResolveReply>)
    requires
        resolve_run(expected, replies) is Superseded,
    ensures
        exists|i: int|
            0 <= i < replies.len() && match #[trigger] replies[i] {
                ResolveReply::Recorded(pid) => pid != Some(expected),
                ResolveReply::Written(written) => !written,
                _ => false,
            },
    decreases replies.len(),
{
    let before = replies.drop_last();
    lemma_expected_stays(expected, before);
    if resolve_run(expected, before) is Superseded {
        law_search_is_superseded_only_if_told(expected, before);
        let i = choose|i: int|
            0 <= i < before.len() && match #[trigger] before[i] {
                ResolveReply::Recorded(pid) => pid != Some(expected),
                ResolveReply::Written(written) => !written,
                _ => false,
            };
        assert(replies[i] == before[i]);
    } else {
        assert(replies[replies.len() - 1] == replies.last());
    }
}

/// A reply that does not answer the step that was taken changes nothing, and an
/// end stays one.
pub proof fn law_search_minds_only_answers(step: ResolveStep, reply: ResolveReply, next: ResolveStep)
    requires
        call_ensures(resolve_gateway_pid_after_spawn, (step, reply), next),
    ensures
        step is Pause && !(reply is Paused) ==> next == step,
        step is ReadRecord && !(reply is Recorded) ==> next == step,
        step is ScanPort && !(reply is Listener) ==> next == step,
        step is Record && !(reply is Written) ==> next == step,
        step is Superseded || step is Confirmed || step is Replaced || step is GaveUp ==> next
            == step,
{
}

/// A search begins with a pause, and has thirty scans half a second apart:
/// fifteen seconds in all.
pub proof fn law_search_takes_fifteen_seconds(expected: u32, step: ResolveStep)
    requires
        call_ensures(begin_resolve, (expected,), step),
    ensures
        step == (ResolveStep::Pause { expected, left: 30 }),
        RESOLVE_ATTEMPTS == 30,
        RESOLVE_PAUSE_MILLIS == 500,
        RESOLVE_ATTEMPTS * RESOLVE_PAUSE_MILLIS == 15_000,
{
}

/// A listener takes the place of the process that was started, and of no other
/// record.
pub proof fn law_listener_replaces_only_what_was_started(
    record: Option<u32>,
    expected: u32,
    listener: u32,
)
    ensures
        record_after(Some(expected), expected, listener) == Some(listener),
        record != Some(expected) ==> record_after(record, expected, listener) == record,
{
}

/// What is recorded is what is read, until it is taken out; then nothing is.
pub proof fn law_record_holds_what_was_set(
    record: &mut Option<u32>,
    pid: u32,
    taken_from: &mut Option<u32>,
    taken: Option<u32>,
    read_from: &Option<u32>,
    read: Option<u32>,
)
    requires
        call_ensures(set_gateway_pid, (record, pid), ()),
        call_ensures(take_gateway_pid, (taken_from,), taken),
        call_ensures(current_gateway_pid, (read_from,), read),
    ensures
        *final(record) == Some(pid),
        taken == *old(taken_from),
        *final(taken_from) == None::<u32>,
        read == *read_from,
{
}

/// The listener is written exactly if the process that was started was still
/// recorded, and else the record stays what it was.
pub proof fn law_listener_is_written_over_its_own(
    record: &mut Option<u32>,
    expected: u32,
    listener: u32,
    written: bool,
)
    requires
        call_ensures(record_listener, (record, expected, listener), written),
    ensures
        written <==> *old(record) == Some(expected),
        *final(record) == if written {
            Some(listener)
        } else {
            *old(record)
        },
{
}

/// What follows each step of a search that is answered.
pub proof fn law_search_goes_on(step: ResolveStep, reply: ResolveReply, next: ResolveStep)
    requires
        call_ensures(resolve_gateway_pid_after_spawn, (step, reply), next),
    ensures
        step is Pause && reply is Paused ==> next == (ResolveStep::ReadRecord {
            expected: step->Pause_expected,
            left: step->Pause_left,
        }),
        step is ReadRecord && reply is Recorded ==> next == (if reply->Recorded_0 == Some(
            step->ReadRecord_expected,
        ) {
            ResolveStep::ScanPort {
                expected: step->ReadRecord_expected,
                left: step->ReadRecord_left,
            }
        } else {
            ResolveStep::Superseded { expected: step->ReadRecord_expected }
        }),
        step is ScanPort && reply is Listener && reply->Listener_0 is Some ==> next == (
        if reply->Listener_0->0 == step->ScanPort_expected {
            ResolveStep::Confirmed { expected: step->ScanPort_expected }
        } else {
            ResolveStep::Record {
                expected: step->ScanPort_expected,
                listener: reply->Listener_0->0,
            }
        }),
        step is ScanPort && reply is Listener && reply->Listener_0 is None ==> next == (
        if step->ScanPort_left <= 1 {
            ResolveStep::GaveUp { expected: step->ScanPort_expected }
        } else {
            ResolveStep::Pause {
                expected: step->ScanPort_expected,
                left: (step->ScanPort_left - 1) as u32,
            }
        }),
        step is Record && reply is Written ==> next == (if reply->Written_0 {
            ResolveStep::Replaced {
                expected: step->Record_expected,
                listener: step->Record_listener,
            }
        } else {
            ResolveStep::Superseded { expected: step->Record_expected }
        }),
{
}

} // verus!
