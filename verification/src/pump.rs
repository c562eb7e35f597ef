use vstd::prelude::*;
use crate::protocol::{EventModel, FrontendEvent, parse_model, parse_stream_line};

verus! {

/// The mathematical shape of one tagged event: the view of
/// [`ClaudeEventPayload`].
pub struct PayloadModel {
    pub thread_id: Seq<char>,
    pub event: EventModel,
}

/// One normalized event tagged with the thread identity it belongs to,
/// ready for the event sink.
#[derive(Debug, PartialEq, Eq)]
pub struct ClaudeEventPayload {
    pub thread_id: String,
    pub event: FrontendEvent,
}

impl View for ClaudeEventPayload {
    type V = PayloadModel;

    open spec fn view(&self) -> PayloadModel {
        PayloadModel { thread_id: self.thread_id@, event: self.event@ }
    }
}

/// The in-order translations of a stream's lines, with blank, malformed and
/// unrecognized lines skipped.
pub open spec fn stream_events(lines: Seq<Seq<char>>) -> Seq<EventModel>
    decreases lines.len(),
{
    if lines.len() == 0 {
        Seq::empty()
    } else {
        (match parse_model(lines[0]) {
            Some(e) => seq![e],
            None => Seq::<EventModel>::empty(),
        }) + stream_events(lines.drop_first())
    }
}

/// Every event in `evs` tagged with the one thread identity `tid`.
pub open spec fn tag_all(tid: Seq<char>, evs: Seq<EventModel>) -> Seq<PayloadModel> {
    Seq::new(evs.len(), |i: int| PayloadModel { thread_id: tid, event: evs[i] })
}

/// Everything the pump delivers for one session, in order: the non-none
/// translation of each line of its output stream, followed by exactly one
/// terminal process-exit event, all tagged with the session's identity.
pub open spec fn pump_model(tid: Seq<char>, lines: Seq<Seq<char>>) -> Seq<PayloadModel> {
    tag_all(tid, stream_events(lines).push(EventModel::ProcessExit { code: 0 }))
}

/// The views of the delivered payloads, used to state pump contracts.
pub open spec fn payload_views(out: Seq<ClaudeEventPayload>) -> Seq<PayloadModel> {
    out.map_values(|p: ClaudeEventPayload| p@)
}

/// Drains one session's output stream, given as the lines it produced
/// before end-of-stream: translates each line in order, tags each resulting
/// event with the owning thread identity, and ends with the one terminal
/// process-exit event.
pub fn pump_output(thread_id: &String, lines: &Vec<String>) -> (out: Vec<ClaudeEventPayload>)
    ensures
        payload_views(out@) == pump_model(thread_id@, lines@.map_values(|l: String| l@)),
{
    let ghost ls = lines@.map_values(|l: String| l@);
    let mut out: Vec<ClaudeEventPayload> = Vec::new();
    let ghost evs = Seq::<EventModel>::empty();
    let n: usize = lines.len();
    let mut i: usize = 0;
    proof {
        assert(ls.skip(0) =~= ls);
        assert(evs + stream_events(ls) =~= stream_events(ls));
        assert(payload_views(out@) =~= tag_all(thread_id@, evs));
    }
    while i < n
        invariant
            i <= n,
            n == lines@.len(),
            ls == lines@.map_values(|l: String| l@),
            evs + stream_events(ls.skip(i as int)) == stream_events(ls),
            payload_views(out@) == tag_all(thread_id@, evs),
        decreases n - i,
    {
        proof {
            assert(ls.skip(i as int)[0] == ls[i as int]);
            assert(ls.skip(i as int).drop_first() =~= ls.skip(i as int + 1));
        }
        let ghost prev = evs;
        match parse_stream_line(lines[i].as_str()) {
            Some(event) => {
                proof {
                    evs = evs.push(event@);
                    assert(prev + (seq![event@] + stream_events(ls.skip(i as int + 1))) =~= evs
                        + stream_events(ls.skip(i as int + 1)));
                }
                let payload = ClaudeEventPayload { thread_id: thread_id.clone(), event };
                let ghost pv = payload@;
                out.push(payload);
                proof {
                    assert(payload_views(out@) =~= tag_all(thread_id@, prev).push(pv));
                    assert(tag_all(thread_id@, prev).push(pv) =~= tag_all(thread_id@, evs));
                }
            },
            None => {
                proof {
                    assert(prev + (Seq::<EventModel>::empty() + stream_events(
                        ls.skip(i as int + 1),
                    )) =~= evs + stream_events(ls.skip(i as int + 1)));
                }
            },
        }
        i += 1;
    }
    proof {
        assert(ls.skip(n as int) =~= Seq::<Seq<char>>::empty());
        assert(evs + Seq::<EventModel>::empty() =~= evs);
    }
    let exit = ClaudeEventPayload {
        thread_id: thread_id.clone(),
        event: FrontendEvent::ProcessExit { code: 0 },
    };
    let ghost xv = exit@;
    out.push(exit);
    proof {
        assert(payload_views(out@) =~= tag_all(thread_id@, evs).push(xv));
        assert(tag_all(thread_id@, evs).push(xv) =~= pump_model(thread_id@, ls));
    }
    out
}

/// No translated line ever yields the terminal process-exit event: only the
/// end of the stream does.
pub proof fn lemma_stream_events_no_exit(lines: Seq<Seq<char>>)
    ensures
        forall|i: int|
            0 <= i < stream_events(lines).len() ==> !((#[trigger] stream_events(lines)[i])
                is ProcessExit),
    decreases lines.len(),
{
    if lines.len() > 0 {
        lemma_stream_events_no_exit(lines.drop_first());
    }
}

/// Law: what the pump delivers for one session is never empty, ends with
/// the one terminal process-exit event, contains no other process-exit
/// event, and carries that session's own thread identity on every event —
/// so a session's exit is reported exactly once, last, and never under
/// another session's identity.
pub proof fn lemma_pump_exit_last(tid: Seq<char>, lines: Seq<Seq<char>>)
    ensures
        pump_model(tid, lines).len() >= 1,
        pump_model(tid, lines).last().event == (EventModel::ProcessExit { code: 0 }),
        forall|i: int|
            0 <= i < pump_model(tid, lines).len() - 1 ==> !((#[trigger] pump_model(tid, lines)[i]).event
                is ProcessExit),
        forall|i: int|
            0 <= i < pump_model(tid, lines).len() ==> (#[trigger] pump_model(tid, lines)[i]).thread_id
                == tid,
{
    lemma_stream_events_no_exit(lines);
}

} // verus!
