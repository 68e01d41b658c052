//! The per-process monitor: it turns what a process's output channel yields
//! into events tagged with that process's id, and says when to deregister.
use vstd::prelude::*;

verus! {

/// The stream an output chunk came from.
#[derive(PartialEq, Eq, Structural, Clone, Copy, Debug)]
pub enum OutputStream {
    Stdout,
    Stderr,
}

/// One item read from a process's output and exit channel.
pub enum ChannelItem {
    Stdout(String),
    Stderr(String),
    /// An error reported by the operating-system layer; it is forwarded as
    /// standard-error output.
    Error(String),
    /// The process ended, with its exit code and signal where known.
    Terminated(Option<i32>, Option<i32>),
}

/// What the monitor hands to the event sink.
pub enum Event {
    Output { pid: u32, stream: OutputStream, data: String },
    Termination { pid: u32, code: i32, signal: i32 },
}

impl Event {
    pub open spec fn pid_of(&self) -> u32 {
        match self {
            Event::Output { pid, .. } => *pid,
            Event::Termination { pid, .. } => *pid,
        }
    }

    pub fn pid(&self) -> (r: u32)
        ensures
            r == self.pid_of(),
    {
        match self {
            Event::Output { pid, .. } => *pid,
            Event::Termination { pid, .. } => *pid,
        }
    }
}

/// A channel read: `None` once the channel is closed.
pub type Received = Option<ChannelItem>;

/// The item ends the monitor: the channel closed, or the process terminated.
pub open spec fn ends_monitor(item: Received) -> bool {
    match item {
        None => true,
        Some(ChannelItem::Terminated(_, _)) => true,
        _ => false,
    }
}

pub open spec fn or_zero(v: Option<i32>) -> i32 {
    match v {
        Some(x) => x,
        None => 0,
    }
}

/// The event that one item yields for process `pid`.
pub open spec fn event_for(pid: u32, item: Received) -> Option<Event> {
    match item {
        None => None,
        Some(ChannelItem::Stdout(d)) => Some(
            Event::Output { pid, stream: OutputStream::Stdout, data: d },
        ),
        Some(ChannelItem::Stderr(d)) => Some(
            Event::Output { pid, stream: OutputStream::Stderr, data: d },
        ),
        Some(ChannelItem::Error(d)) => Some(
            Event::Output { pid, stream: OutputStream::Stderr, data: d },
        ),
        Some(ChannelItem::Terminated(c, s)) => Some(
            Event::Termination { pid, code: or_zero(c), signal: or_zero(s) },
        ),
    }
}

pub open spec fn option_seq(e: Option<Event>) -> Seq<Event> {
    match e {
        Some(x) => seq![x],
        None => Seq::empty(),
    }
}

/// The events that a monitor of `pid` emits when its channel yields `items`
/// in this order: one for each item up to and including the first one that
/// ends the monitor, none after it.
pub open spec fn events_of(pid: u32, items: Seq<Received>) -> Seq<Event>
    decreases items.len(),
{
    if items.len() == 0 {
        Seq::empty()
    } else if ends_monitor(items[0]) {
        option_seq(event_for(pid, items[0]))
    } else {
        option_seq(event_for(pid, items[0])) + events_of(pid, items.drop_first())
    }
}

/// How many times the monitor deregisters its process when its channel
/// yields `items`.
pub open spec fn deregistrations_of(items: Seq<Received>) -> nat
    decreases items.len(),
{
    if items.len() == 0 {
        0
    } else if ends_monitor(items[0]) {
        1
    } else {
        deregistrations_of(items.drop_first())
    }
}

pub open spec fn is_termination(e: Event) -> bool {
    e is Termination
}

/// The number of termination events in `s`.
pub open spec fn terminations(s: Seq<Event>) -> nat
    decreases s.len(),
{
    if s.len() == 0 {
        0
    } else {
        (if is_termination(s[0]) { 1nat } else { 0nat }) + terminations(s.drop_first())
    }
}

proof fn lemma_terminations_prepend(e: Event, rest: Seq<Event>)
    ensures
        terminations(seq![e] + rest) == (if is_termination(e) { 1nat } else { 0nat })
            + terminations(rest),
{
    assert((seq![e] + rest).drop_first() =~= rest);
}

/// Every event that a monitor of `pid` emits carries `pid`. It emits at most
/// one termination event, and that one is the last event; it deregisters its
/// process at most once.
pub proof fn lemma_monitor_events_tagged(pid: u32, items: Seq<Received>)
    ensures
        forall|i: int|
            0 <= i < events_of(pid, items).len() ==> (#[trigger] events_of(pid, items)[i]).pid_of()
                == pid,
        terminations(events_of(pid, items)) <= 1,
        terminations(events_of(pid, items)) == 1 ==> is_termination(
            events_of(pid, items).last(),
        ),
        deregistrations_of(items) <= 1,
    decreases items.len(),
{
    if items.len() > 0 {
        let ev = events_of(pid, items);
        if ends_monitor(items[0]) {
            match event_for(pid, items[0]) {
                Some(e) => {
                    lemma_terminations_prepend(e, Seq::empty());
                    assert(seq![e] + Seq::<Event>::empty() =~= seq![e]);
                },
                None => {},
            }
        } else {
            let rest = events_of(pid, items.drop_first());
            lemma_monitor_events_tagged(pid, items.drop_first());
            let e = event_for(pid, items[0])->0;
            assert(ev == seq![e] + rest);
            assert(!is_termination(e));
            lemma_terminations_prepend(e, rest);
            if rest.len() > 0 {
                assert(ev.last() == rest.last());
            }
        }
    }
}

/// A process that terminates on its own: when its channel yields a
/// termination before it closes, the monitor emits exactly one termination
/// event, as its last event and for its own process id, and deregisters the
/// process exactly once.
pub proof fn lemma_natural_termination(pid: u32, items: Seq<Received>, k: int)
    requires
        0 <= k < items.len(),
        items[k] matches Some(ChannelItem::Terminated(_, _)),
        forall|j: int| 0 <= j < k ==> !ends_monitor(#[trigger] items[j]),
    ensures
        terminations(events_of(pid, items)) == 1,
        is_termination(events_of(pid, items).last()),
        events_of(pid, items).last().pid_of() == pid,
        deregistrations_of(items) == 1,
    decreases k,
{
    lemma_monitor_events_tagged(pid, items);
    let ev = events_of(pid, items);
    if k == 0 {
        let e = event_for(pid, items[0])->0;
        assert(ev == seq![e]);
        lemma_terminations_prepend(e, Seq::empty());
        assert(seq![e] + Seq::<Event>::empty() =~= seq![e]);
    } else {
        let tail = items.drop_first();
        assert forall|j: int| 0 <= j < k - 1 implies !ends_monitor(#[trigger] tail[j]) by {
            assert(tail[j] == items[j + 1]);
        }
        assert(!ends_monitor(items[0]));
        lemma_natural_termination(pid, tail, k - 1);
        let rest = events_of(pid, tail);
        let e = event_for(pid, items[0])->0;
        assert(ev == seq![e] + rest);
        lemma_terminations_prepend(e, rest);
        assert(ev.last() == rest.last());
    }
}

/// What the monitor does on one item.
pub struct MonitorStep {
    /// The event to hand to the sink, if any.
    pub event: Option<Event>,
    /// Whether to remove the process from the registry now.
    pub deregister: bool,
}

/// The monitor of one supervised process.
pub struct Monitor {
    pub pid: u32,
    pub finished: bool,
}

impl Monitor {
    pub fn new(pid: u32) -> (r: Monitor)
        ensures
            r.pid == pid,
            !r.finished,
    {
        Monitor { pid, finished: false }
    }

    /// Handles the next read from the channel. Once the monitor has finished
    /// it emits nothing more and deregisters nothing more.
    pub fn step(&mut self, item: Received) -> (r: MonitorStep)
        ensures
            final(self).pid == old(self).pid,
            old(self).finished ==> final(self).finished && r.event is None && !r.deregister,
            !old(self).finished ==> {
                &&& r.event == event_for(old(self).pid, item)
                &&& r.deregister == ends_monitor(item)
                &&& final(self).finished == ends_monitor(item)
            },
    {
        if self.finished {
            return MonitorStep { event: None, deregister: false };
        }
        let pid = self.pid;
        match item {
            None => {
                self.finished = true;
                MonitorStep { event: None, deregister: true }
            },
            Some(ChannelItem::Stdout(data)) => MonitorStep {
                event: Some(Event::Output { pid, stream: OutputStream::Stdout, data }),
                deregister: false,
            },
            Some(ChannelItem::Stderr(data)) => MonitorStep {
                event: Some(Event::Output { pid, stream: OutputStream::Stderr, data }),
                deregister: false,
            },
            Some(ChannelItem::Error(data)) => MonitorStep {
                event: Some(Event::Output { pid, stream: OutputStream::Stderr, data }),
                deregister: false,
            },
            Some(ChannelItem::Terminated(code, signal)) => {
                self.finished = true;
                let code = match code {
                    Some(c) => c,
                    None => 0,
                };
                let signal = match signal {
                    Some(s) => s,
                    None => 0,
                };
                MonitorStep {
                    event: Some(Event::Termination { pid, code, signal }),
                    deregister: true,
                }
            },
        }
    }
}

/// Runs a monitor of `pid` over the items its channel yields, in order, and
/// returns the events it emits and how many times it deregistered.
pub fn run_monitor(pid: u32, items: Vec<Received>) -> (r: (Vec<Event>, usize))
    ensures
        r.0@ == events_of(pid, items@),
        r.1 as nat == deregistrations_of(items@),
{
    let mut monitor = Monitor::new(pid);
    let mut out: Vec<Event> = Vec::new();
    let mut deregistered: usize = 0;
    let ghost all = items@;
    let mut rest = items;
    let ghost mut done: int = 0;
    proof {
        assert(all.subrange(0, all.len() as int) =~= all);
        assert(Seq::<Event>::empty() + events_of(pid, all) =~= events_of(pid, all));
    }
    while rest.len() > 0
        invariant
            0 <= done <= all.len(),
            rest@ == all.subrange(done, all.len() as int),
            monitor.pid == pid,
            deregistered <= 1,
            !monitor.finished ==> deregistered == 0,
            monitor.finished ==> (out@ == events_of(pid, all) && deregistered as nat
                == deregistrations_of(all)),
            !monitor.finished ==> (out@ + events_of(pid, all.subrange(done, all.len() as int))
                == events_of(pid, all) && deregistered + deregistrations_of(
                all.subrange(done, all.len() as int),
            ) == deregistrations_of(all)),
        decreases rest@.len(),
    {
        let item = rest.remove(0);
        let ghost tail = all.subrange(done, all.len() as int);
        proof {
            assert(item == all[done]);
            assert(tail[0] == item);
            assert(tail.drop_first() =~= all.subrange(done + 1, all.len() as int));
        }
        let step = monitor.step(item);
        match step.event {
            Some(e) => {
                out.push(e);
            },
            None => {},
        }
        if step.deregister {
            deregistered = deregistered + 1;
        }
        proof {
            done = done + 1;
        }
    }
    proof {
        if !monitor.finished {
            assert(all.subrange(done, all.len() as int) =~= Seq::<Received>::empty());
            assert(out@ + Seq::<Event>::empty() =~= out@);
        }
    }
    (out, deregistered)
}

} // verus!
