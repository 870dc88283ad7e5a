//! The feedback orchestrator's decision core: which instructions each domain
//! event turns into, and in what order a stream of events is emitted.
//!
//! The worker loop itself (blocking receive, the 250 ms dwell, the
//! failure-tolerant sends) lives outside the library; it asks [`script_for`]
//! what to enqueue and performs the dwell between the two halves of the
//! returned script.

use vstd::prelude::*;

verus! {

/// A domain event produced by the surrounding application.
#[derive(Clone, Copy, Debug, PartialEq, Eq, Structural)]
pub enum Event {
    PathChange,
    PathError,
    FileDeleted,
    AppExit,
}

/// An opaque render directive, enqueued for an external renderer.
#[derive(Clone, Copy, Debug, PartialEq, Eq, Structural)]
pub enum Instruction {
    SetFrameAroundCurrentPath,
    RemoveFrameAroundCurrentPath,
    SetPathToRed,
    ResetCurrentPathColor,
    SetFrameAroundSpaceFreed,
    RemoveFrameAroundSpaceFreed,
    Render,
}

/// One event's animation script: the instructions to enqueue before the
/// dwell, and the instructions to enqueue after it.
pub struct Script {
    pub enter: Vec<Instruction>,
    pub exit: Vec<Instruction>,
}

/// The "enter highlight" half of an event's script.
pub open spec fn enter_of(e: Event) -> Seq<Instruction> {
    match e {
        Event::PathChange => seq![
            Instruction::SetFrameAroundCurrentPath,
            Instruction::Render,
        ],
        Event::PathError => seq![
            Instruction::SetPathToRed,
            Instruction::SetFrameAroundCurrentPath,
            Instruction::Render,
        ],
        Event::FileDeleted => seq![
            Instruction::SetFrameAroundSpaceFreed,
            Instruction::Render,
        ],
        Event::AppExit => seq![],
    }
}

/// The "exit highlight" half of an event's script.
pub open spec fn exit_of(e: Event) -> Seq<Instruction> {
    match e {
        Event::PathChange => seq![
            Instruction::RemoveFrameAroundCurrentPath,
            Instruction::Render,
        ],
        Event::PathError => seq![
            Instruction::ResetCurrentPathColor,
            Instruction::RemoveFrameAroundCurrentPath,
            Instruction::Render,
        ],
        Event::FileDeleted => seq![
            Instruction::RemoveFrameAroundSpaceFreed,
            Instruction::Render,
        ],
        Event::AppExit => seq![],
    }
}

/// Everything an event enqueues, in order: enter half, then exit half.
pub open spec fn script_of(e: Event) -> Seq<Instruction> {
    enter_of(e) + exit_of(e)
}

/// The script for one event, or `None` when the event asks the worker to
/// terminate. The caller enqueues `enter`, dwells, then enqueues `exit`.
pub fn script_for(event: &Event) -> (r: Option<Script>)
    ensures
        r is Some <==> !(*event is AppExit),
        r matches Some(s) ==> s.enter@ == enter_of(*event) && s.exit@ == exit_of(*event),
{
    match event {
        Event::PathChange => {
            let enter: Vec<Instruction> = vec![
                Instruction::SetFrameAroundCurrentPath,
                Instruction::Render,
            ];
            let exit: Vec<Instruction> = vec![
                Instruction::RemoveFrameAroundCurrentPath,
                Instruction::Render,
            ];
            assert(enter@ =~= enter_of(*event));
            assert(exit@ =~= exit_of(*event));
            Some(Script { enter, exit })
        },
        Event::PathError => {
            let enter: Vec<Instruction> = vec![
                Instruction::SetPathToRed,
                Instruction::SetFrameAroundCurrentPath,
                Instruction::Render,
            ];
            let exit: Vec<Instruction> = vec![
                Instruction::ResetCurrentPathColor,
                Instruction::RemoveFrameAroundCurrentPath,
                Instruction::Render,
            ];
            assert(enter@ =~= enter_of(*event));
            assert(exit@ =~= exit_of(*event));
            Some(Script { enter, exit })
        },
        Event::FileDeleted => {
            let enter: Vec<Instruction> = vec![
                Instruction::SetFrameAroundSpaceFreed,
                Instruction::Render,
            ];
            let exit: Vec<Instruction> = vec![
                Instruction::RemoveFrameAroundSpaceFreed,
                Instruction::Render,
            ];
            assert(enter@ =~= enter_of(*event));
            assert(exit@ =~= exit_of(*event));
            Some(Script { enter, exit })
        },
        Event::AppExit => None,
    }
}

/// Everything a worker that processes `es` in order enqueues before it
/// terminates: each event's full script in arrival order, stopping at the
/// first `AppExit`, which itself enqueues nothing.
pub open spec fn emitted(es: Seq<Event>) -> Seq<Instruction>
    decreases es.len(),
{
    if es.len() == 0 {
        seq![]
    } else if es[0] is AppExit {
        seq![]
    } else {
        script_of(es[0]) + emitted(es.drop_first())
    }
}

/// The worker loop with its outside work stripped away: processes events in
/// order, one at a time, collecting every instruction each one enqueues, and
/// stops at the first `AppExit` without reading further.
pub fn run_events(events: &Vec<Event>) -> (out: Vec<Instruction>)
    ensures
        out@ == emitted(events@),
{
    let mut out: Vec<Instruction> = Vec::new();
    let mut i: usize = 0;
    proof {
        assert(events@.skip(0) =~= events@);
        assert(out@ + emitted(events@) =~= emitted(events@));
    }
    while i < events.len()
        invariant
            i <= events@.len(),
            emitted(events@) == out@ + emitted(events@.skip(i as int)),
        decreases events@.len() - i,
    {
        proof {
            assert(events@.skip(i as int)[0] == events@[i as int]);
        }
        match script_for(&events[i]) {
            None => {
                proof {
                    assert(emitted(events@.skip(i as int)) =~= seq![]);
                    assert(out@ + emitted(events@.skip(i as int)) =~= out@);
                }
                return out;
            },
            Some(script) => {
                let ghost out0 = out@;
                let mut j: usize = 0;
                while j < script.enter.len()
                    invariant
                        j <= script.enter@.len(),
                        out@ == out0 + script.enter@.take(j as int),
                    decreases script.enter@.len() - j,
                {
                    out.push(script.enter[j]);
                    proof {
                        assert(out@ =~= out0 + script.enter@.take(j + 1 as int));
                    }
                    j += 1;
                }
                let mut k: usize = 0;
                while k < script.exit.len()
                    invariant
                        k <= script.exit@.len(),
                        out@ == out0 + script.enter@ + script.exit@.take(k as int),
                    decreases script.exit@.len() - k,
                {
                    proof {
                        assert(out0 + script.enter@.take(script.enter@.len() as int)
                            =~= out0 + script.enter@);
                    }
                    out.push(script.exit[k]);
                    proof {
                        assert(out@ =~= out0 + script.enter@ + script.exit@.take(k + 1 as int));
                    }
                    k += 1;
                }
                proof {
                    let s = events@.skip(i as int);
                    assert(out@ =~= out0 + script_of(events@[i as int]));
                    assert(s.drop_first() =~= events@.skip(i + 1));
                    assert(emitted(s) == script_of(s[0]) + emitted(s.drop_first()));
                    assert(out@ + emitted(events@.skip(i + 1))
                        =~= out0 + (script_of(events@[i as int]) + emitted(events@.skip(i + 1))));
                }
                i += 1;
            },
        }
    }
    proof {
        assert(events@.skip(events@.len() as int) =~= Seq::<Event>::empty());
        assert(out@ + emitted(events@.skip(events@.len() as int)) =~= out@);
    }
    out
}

/// Two events that both animate produce two complete scripts, in arrival
/// order and not interleaved: the whole of the first event's script stands
/// before the whole of the second's.
pub proof fn lemma_back_to_back(e1: Event, e2: Event)
    requires
        !(e1 is AppExit),
        !(e2 is AppExit),
    ensures
        emitted(seq![e1, e2]) == script_of(e1) + script_of(e2),
{
    let es = seq![e1, e2];
    let tail = seq![e2];
    assert(es.drop_first() =~= tail);
    assert(tail.drop_first() =~= Seq::<Event>::empty());
    assert(emitted(Seq::<Event>::empty()) == Seq::<Instruction>::empty());
    assert(emitted(tail) == script_of(tail[0]) + emitted(tail.drop_first()));
    assert(emitted(tail) =~= script_of(e2));
    assert(emitted(es) == script_of(es[0]) + emitted(es.drop_first()));
    assert(emitted(es) =~= script_of(e1) + script_of(e2));
}

/// An `AppExit` at the head of the stream enqueues nothing, and nothing
/// after it is processed, whatever follows.
pub proof fn lemma_exit_stops(rest: Seq<Event>)
    ensures
        emitted(seq![Event::AppExit] + rest) == Seq::<Instruction>::empty(),
{
    let es = seq![Event::AppExit] + rest;
    assert(es[0] is AppExit);
}

} // verus!
