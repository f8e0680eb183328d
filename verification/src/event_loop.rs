//! The loop that collects what a test process reports: it takes messages
//! until the process has exited, then takes what is still in the queue, and
//! is done when the queue is empty.

use vstd::prelude::*;
use vstd::string::*;
use crate::shared::{Message, Result, result_views};
use crate::output::{all_matched, all_ok};

verus! {

/// Where the loop stands.
#[derive(Debug, Clone, Copy, PartialEq, Eq)]
pub enum Phase {
    /// The process runs: wait for a message or for its exit.
    Running,
    /// The process has exited: take what is left in the queue.
    Draining,
    /// Nothing is left.
    Done,
}

/// What happened.
#[derive(Debug)]
pub enum Event {
    /// A message arrived.
    Received(Message),
    /// The process has exited.
    Exited,
    /// The queue has no sender left.
    Closed,
    /// The queue holds no message now.
    Empty,
}

/// What the loop does next.
#[derive(Debug, Clone, Copy, PartialEq, Eq)]
pub enum Action {
    /// Wait for whichever comes first, a message or the exit of the process.
    Wait,
    /// Take a message from the queue without waiting.
    Poll,
    /// Stop.
    Stop,
}

/// The phase after an event.
pub open spec fn next_phase(phase: Phase, event: Event) -> Phase {
    match phase {
        Phase::Running => match event {
            Event::Exited => Phase::Draining,
            Event::Closed => Phase::Draining,
            _ => Phase::Running,
        },
        Phase::Draining => match event {
            Event::Empty => Phase::Done,
            Event::Closed => Phase::Done,
            _ => Phase::Draining,
        },
        Phase::Done => Phase::Done,
    }
}

/// The tests recorded after an event: until the loop is done, the message
/// that a test has finished records the test with its outcomes and whether
/// all of them are matches. Nothing else records anything.
pub open spec fn next_suites(
    phase: Phase,
    suites: Seq<(String, Vec<Result>, bool)>,
    event: Event,
) -> Seq<(String, Vec<Result>, bool)> {
    match event {
        Event::Received(Message::TestFinished { name, result }) => if phase != Phase::Done {
            suites.push((name, result, all_matched(result_views(result@))))
        } else {
            suites
        },
        _ => suites,
    }
}

/// The loop: its phase and the tests recorded so far, each with its name,
/// its outcomes and whether it passed.
#[derive(Debug)]
pub struct EventLoop {
    phase: Phase,
    suites: Vec<(String, Vec<Result>, bool)>,
}

impl EventLoop {
    /// Where the loop stands.
    pub closed spec fn phase(&self) -> Phase {
        self.phase
    }

    /// The tests recorded so far, in the order of their messages.
    pub closed spec fn suites(&self) -> Seq<(String, Vec<Result>, bool)> {
        self.suites@
    }

    /// A loop for a process that runs, with nothing recorded.
    pub fn new() -> (r: Self)
        ensures
            r.phase() == Phase::Running,
            r.suites() == Seq::<(String, Vec<Result>, bool)>::empty(),
    {
        EventLoop { phase: Phase::Running, suites: Vec::new() }
    }

    /// What to do next: wait while the process runs, poll while the queue is
    /// drained, stop when the loop is done.
    pub fn next_action(&self) -> (r: Action)
        ensures
            r == match self.phase() {
                Phase::Running => Action::Wait,
                Phase::Draining => Action::Poll,
                Phase::Done => Action::Stop,
            },
    {
        match self.phase {
            Phase::Running => Action::Wait,
            Phase::Draining => Action::Poll,
            Phase::Done => Action::Stop,
        }
    }

    /// Takes an event, and tells whether it recorded a test.
    pub fn handle(&mut self, event: Event) -> (recorded: bool)
        ensures
            final(self).phase() == next_phase(old(self).phase(), event),
            final(self).suites() == next_suites(old(self).phase(), old(self).suites(), event),
            recorded == (final(self).suites().len() == old(self).suites().len() + 1),
    {
        let mut recorded = false;
        let next = match self.phase {
            Phase::Running => match &event {
                Event::Exited => Phase::Draining,
                Event::Closed => Phase::Draining,
                _ => Phase::Running,
            },
            Phase::Draining => match &event {
                Event::Empty => Phase::Done,
                Event::Closed => Phase::Done,
                _ => Phase::Draining,
            },
            Phase::Done => Phase::Done,
        };
        let running = match self.phase {
            Phase::Done => false,
            _ => true,
        };
        match event {
            Event::Received(Message::TestFinished { name, result }) => {
                if running {
                    let passed = all_ok(&result);
                    self.suites.push((name, result, passed));
                    recorded = true;
                }
            },
            _ => {},
        }
        self.phase = next;
        recorded
    }

    /// The tests recorded so far.
    pub fn recorded(&self) -> (r: &Vec<(String, Vec<Result>, bool)>)
        ensures
            r@ == self.suites(),
    {
        &self.suites
    }

    /// Ends the loop and hands out the tests it recorded.
    pub fn into_suites(self) -> (r: Vec<(String, Vec<Result>, bool)>)
        ensures
            r@ == self.suites(),
    {
        self.suites
    }
}

/// The value of a loop: its phase and the tests it recorded.
pub struct LoopModel {
    pub phase: Phase,
    pub suites: Seq<(String, Vec<Result>, bool)>,
}

/// The loop after a sequence of events.
pub open spec fn after_events(start: LoopModel, events: Seq<Event>) -> LoopModel
    decreases events.len(),
{
    if events.len() == 0 {
        start
    } else {
        let before = after_events(start, events.drop_last());
        LoopModel {
            phase: next_phase(before.phase, events.last()),
            suites: next_suites(before.phase, before.suites, events.last()),
        }
    }
}

/// The tests that a sequence of messages records.
pub open spec fn suites_of(messages: Seq<Message>) -> Seq<(String, Vec<Result>, bool)>
    decreases messages.len(),
{
    if messages.len() == 0 {
        Seq::empty()
    } else {
        next_suites(
            Phase::Draining,
            suites_of(messages.drop_last()),
            Event::Received(messages.last()),
        )
    }
}

/// The messages as events.
pub open spec fn received(messages: Seq<Message>) -> Seq<Event> {
    messages.map_values(|m: Message| Event::Received(m))
}

/// While the loop drains the queue it stays in that phase and records every
/// test that the messages report.
pub proof fn lemma_draining_records(
    suites: Seq<(String, Vec<Result>, bool)>,
    messages: Seq<Message>,
)
    ensures
        after_events(LoopModel { phase: Phase::Draining, suites }, received(messages)).phase
            == Phase::Draining,
        after_events(LoopModel { phase: Phase::Draining, suites }, received(messages)).suites
            == suites + suites_of(messages),
    decreases messages.len(),
{
    let start = LoopModel { phase: Phase::Draining, suites };
    if messages.len() == 0 {
        assert(suites + suites_of(messages) =~= suites);
    } else {
        lemma_draining_records(suites, messages.drop_last());
        assert(received(messages).drop_last() =~= received(messages.drop_last()));
        assert(received(messages).last() == Event::Received(messages.last()));
        let before = after_events(start, received(messages.drop_last()));
        match messages.last() {
            Message::TestFinished { name, result } => {
                assert((suites + suites_of(messages.drop_last())).push(
                    (name, result, all_matched(result_views(result@))),
                ) =~= suites + suites_of(messages));
            },
            _ => {},
        }
    }
}

/// No message is lost to the exit of the process: when the exit is seen
/// first and the messages that were under way arrive after it, the loop
/// records every test they report before it finds the queue empty and is
/// done.
pub proof fn lemma_messages_after_exit_are_recorded(
    suites: Seq<(String, Vec<Result>, bool)>,
    late: Seq<Message>,
)
    ensures
        after_events(
            LoopModel { phase: Phase::Running, suites },
            seq![Event::Exited] + received(late) + seq![Event::Empty],
        ) == (LoopModel { phase: Phase::Done, suites: suites + suites_of(late) }),
{
    let start = LoopModel { phase: Phase::Running, suites };
    let events = seq![Event::Exited] + received(late) + seq![Event::Empty];
    let drained = LoopModel { phase: Phase::Draining, suites };
    lemma_draining_records(suites, late);
    lemma_after_events_split(start, seq![Event::Exited], received(late));
    let one = seq![Event::Exited];
    assert(one.drop_last() =~= Seq::<Event>::empty());
    assert(after_events(start, one.drop_last()) == start);
    assert(one.last() == Event::Exited);
    assert(after_events(start, one) == drained);
    assert(events.drop_last() =~= seq![Event::Exited] + received(late));
    assert(events.last() == Event::Empty);
}

/// Handling one run of events after another is handling them all.
pub proof fn lemma_after_events_split(start: LoopModel, first: Seq<Event>, second: Seq<Event>)
    ensures
        after_events(start, first + second) == after_events(after_events(start, first), second),
    decreases second.len(),
{
    if second.len() == 0 {
        assert(first + second =~= first);
    } else {
        lemma_after_events_split(start, first, second.drop_last());
        assert((first + second).drop_last() =~= first + second.drop_last());
        assert((first + second).last() == second.last());
    }
}

} // verus!
