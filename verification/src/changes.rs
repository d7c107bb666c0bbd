//! The stream of changes: a connection that drains what is known, asks for
//! more, and ends with a cursor to go on from.

use vstd::prelude::*;

use crate::ids::{id_string, id_text};
use crate::json::{empty_object, int_value, json_int, values, Json, Value};
use crate::time::{json_instant, json_instant_of, Instant};

verus! {

/// Milliseconds between two looks for new changes.
pub const STREAM_POLL_INTERVAL: u64 = 2_000;

/// Milliseconds that a connection lasts.
pub const STREAM_MAX_LIFETIME: u64 = 1_800_000;

/// Changes that are asked for at a time.
pub const STREAM_BATCH: i64 = 500;

/// An entry of the change log.
#[derive(Debug)]
pub struct ChangeRow {
    pub seq: i64,
    pub calendar_id: u128,
    pub resource_id: u128,
    pub operation: String,
    pub changed_at: Instant,
}

/// A change, as clients get it.
pub open spec fn change_value(row: ChangeRow) -> Value {
    empty_object()
        .set("seq"@, int_value(row.seq))
        .set("calendar_id"@, Value::Text(id_text(row.calendar_id)))
        .set("resource_id"@, Value::Text(id_text(row.resource_id)))
        .set("operation"@, Value::Text(row.operation@))
        .set("changed_at"@, Value::Text(json_instant(row.changed_at)))
}

/// A change, as clients get it.
pub fn change_frame(row: &ChangeRow) -> (r: Json)
    requires
        row.changed_at.wf(),
    ensures
        r@ == change_value(*row),
{
    Json::object()
        .with("seq", json_int(row.seq))
        .with("calendar_id", Json::Text(id_string(row.calendar_id)))
        .with("resource_id", Json::Text(id_string(row.resource_id)))
        .with("operation", Json::Text(row.operation.clone()))
        .with("changed_at", Json::Text(json_instant_of(row.changed_at)))
}

/// A cursor, as clients get it.
pub open spec fn cursor_value(seq: i64) -> Value {
    empty_object().set("seq"@, int_value(seq))
}

/// A cursor, as clients get it.
pub fn cursor_frame(seq: i64) -> (r: Json)
    ensures
        r@ == cursor_value(seq),
{
    Json::object().with("seq", json_int(seq))
}

/// What waits to be sent: where the stream begins, or a change.
#[derive(Debug)]
pub enum Frame {
    Sync(i64),
    Change(ChangeRow),
}

impl Frame {
    pub open spec fn wf(self) -> bool {
        match self {
            Frame::Sync(_) => true,
            Frame::Change(row) => row.changed_at.wf(),
        }
    }
}

/// An event on the wire: its name and its data.
#[derive(Debug)]
pub struct StreamEvent {
    pub name: &'static str,
    pub data: Json,
}

/// An event as a specification value.
pub struct StreamEventSpec {
    pub name: Seq<char>,
    pub data: Value,
}

impl View for StreamEvent {
    type V = StreamEventSpec;

    open spec fn view(&self) -> StreamEventSpec {
        StreamEventSpec { name: self.name@, data: self.data@ }
    }
}

/// The event of a frame.
pub open spec fn frame_event_spec(frame: Frame) -> StreamEventSpec {
    match frame {
        Frame::Sync(seq) => StreamEventSpec { name: "sync"@, data: cursor_value(seq) },
        Frame::Change(row) => StreamEventSpec { name: "change"@, data: change_value(row) },
    }
}

/// The event of a frame.
pub fn frame_event(frame: &Frame) -> (r: StreamEvent)
    requires
        frame.wf(),
    ensures
        r@ == frame_event_spec(*frame),
{
    match frame {
        Frame::Sync(seq) => StreamEvent { name: "sync", data: cursor_frame(*seq) },
        Frame::Change(row) => StreamEvent { name: "change", data: change_frame(row) },
    }
}

/// The event that ends a stream: where to go on from.
pub open spec fn done_event_spec(seq: i64) -> StreamEventSpec {
    StreamEventSpec { name: "done"@, data: cursor_value(seq) }
}

/// The event that ends a stream.
pub fn done_event(seq: i64) -> (r: StreamEvent)
    ensures
        r@ == done_event_spec(seq),
{
    StreamEvent { name: "done", data: cursor_frame(seq) }
}

/// The state of a connection. Frames wait in reverse, the next one last.
#[derive(Debug)]
pub struct ChangeStream {
    pub since: i64,
    pub pending: Vec<Frame>,
    /// The time, in milliseconds, at which the connection ends.
    pub deadline: u64,
    pub finished: bool,
}

/// A connection as a specification value; its frames in the order in which
/// they go out.
pub struct ChangeStreamSpec {
    pub since: i64,
    pub pending: Seq<Frame>,
    pub deadline: u64,
    pub finished: bool,
}

impl View for ChangeStream {
    type V = ChangeStreamSpec;

    open spec fn view(&self) -> ChangeStreamSpec {
        ChangeStreamSpec {
            since: self.since,
            pending: self.pending@.reverse(),
            deadline: self.deadline,
            finished: self.finished,
        }
    }
}

impl ChangeStream {
    pub open spec fn wf(self) -> bool {
        forall|i: int| 0 <= i < self.pending@.len() ==> (#[trigger] self.pending@[i]).wf()
    }
}

/// A new connection. One with a cursor begins behind it; one without begins
/// at the head of the log, and is told where that is.
pub fn open_stream(since: Option<i64>, head: i64, now: u64) -> (r: ChangeStream)
    requires
        now <= u64::MAX - STREAM_MAX_LIFETIME,
    ensures
        r.wf(),
        !r@.finished,
        r@.deadline == now + STREAM_MAX_LIFETIME,
        match since {
            Some(s) => r@.since == s && r@.pending == Seq::<Frame>::empty(),
            None => r@.since == head && r@.pending == seq![Frame::Sync(head)],
        },
{
    let mut pending: Vec<Frame> = Vec::new();
    let start: i64 = match since {
        Some(s) => s,
        None => {
            pending.push(Frame::Sync(head));
            head
        },
    };
    let r = ChangeStream {
        since: start,
        pending,
        deadline: now + STREAM_MAX_LIFETIME,
        finished: false,
    };
    assert(since is Some ==> r@.pending =~= Seq::<Frame>::empty());
    assert(since is None ==> r@.pending =~= seq![Frame::Sync(head)]);
    r
}

/// What a connection does next.
#[derive(Debug)]
pub enum StreamStep {
    /// It is over.
    End,
    /// This event goes out.
    Emit(StreamEvent),
    /// It asks for the changes behind its cursor.
    Poll,
}

/// What a connection does next, as a specification value.
pub enum StreamStepSpec {
    End,
    Emit(StreamEventSpec),
    Poll,
}

impl View for StreamStep {
    type V = StreamStepSpec;

    open spec fn view(&self) -> StreamStepSpec {
        match *self {
            StreamStep::End => StreamStepSpec::End,
            StreamStep::Emit(e) => StreamStepSpec::Emit(e@),
            StreamStep::Poll => StreamStepSpec::Poll,
        }
    }
}

/// What a connection does next, and its state behind that. Waiting frames go
/// out first, and each change moves the cursor; then, past its time, the
/// connection says where to go on from, and is over.
pub open spec fn next_step(s: ChangeStreamSpec, now: u64) -> (StreamStepSpec, ChangeStreamSpec) {
    if s.finished {
        (StreamStepSpec::End, s)
    } else if s.pending.len() > 0 {
        let frame = s.pending[0];
        (
            StreamStepSpec::Emit(frame_event_spec(frame)),
            ChangeStreamSpec {
                since: match frame {
                    Frame::Change(row) => row.seq,
                    Frame::Sync(_) => s.since,
                },
                pending: s.pending.subrange(1, s.pending.len() as int),
                ..s
            },
        )
    } else if now >= s.deadline {
        (
            StreamStepSpec::Emit(done_event_spec(s.since)),
            ChangeStreamSpec { finished: true, ..s },
        )
    } else {
        (StreamStepSpec::Poll, s)
    }
}

/// What a connection does next.
pub fn next_change_stream_state(st: &mut ChangeStream, now: u64) -> (r: StreamStep)
    requires
        old(st).wf(),
    ensures
        (r@, final(st)@) == next_step(old(st)@, now),
        final(st).wf(),
{
    if st.finished {
        return StreamStep::End;
    }
    let ghost before = st.pending@;
    match st.pending.pop() {
        Some(frame) => {
            proof {
                assert(frame == before[before.len() - 1]);
                assert(frame.wf());
                assert(before.reverse()[0] == frame);
                assert(st.pending@.reverse() =~= before.reverse().subrange(
                    1,
                    before.len() as int,
                ));
            }
            let event = frame_event(&frame);
            if let Frame::Change(row) = &frame {
                st.since = row.seq;
            }
            StreamStep::Emit(event)
        },
        None => {
            assert(st.pending@ == before);
            if now >= st.deadline {
                st.finished = true;
                StreamStep::Emit(done_event(st.since))
            } else {
                StreamStep::Poll
            }
        },
    }
}

/// Takes in the changes that a connection asked for; `None` stands for a look
/// that failed. Says whether to wait before the next step: where nothing
/// new was found.
pub fn take_changes(st: &mut ChangeStream, rows: Option<Vec<ChangeRow>>) -> (r: bool)
    requires
        old(st).wf(),
        old(st)@.pending.len() == 0,
        rows matches Some(list) ==> forall|i: int|
            0 <= i < list@.len() ==> (#[trigger] list@[i]).changed_at.wf(),
    ensures
        final(st).wf(),
        final(st)@.since == old(st)@.since,
        final(st)@.deadline == old(st)@.deadline,
        final(st)@.finished == old(st)@.finished,
        match rows {
            Some(list) => final(st)@.pending == Seq::new(
                list@.len(),
                |i: int| Frame::Change(list@[i]),
            ) && r == (list@.len() == 0),
            None => final(st)@.pending == old(st)@.pending && r,
        },
{
    assert(st@.pending.len() == st.pending@.len());
    let mut list = match rows {
        Some(list) => list,
        None => {
            return true;
        },
    };
    let ghost all = list@;
    let ghost frames = Seq::new(all.len(), |i: int| Frame::Change(all[i]));
    let empty = list.len() == 0;
    assert(st.pending@ =~= Seq::<Frame>::empty());
    while list.len() > 0
        invariant
            list@.len() <= all.len(),
            list@ == all.take(list@.len() as int),
            frames == Seq::new(all.len(), |i: int| Frame::Change(all[i])),
            forall|i: int| 0 <= i < all.len() ==> (#[trigger] all[i]).changed_at.wf(),
            st.wf(),
            st.since == old(st).since,
            st.deadline == old(st).deadline,
            st.finished == old(st).finished,
            st.pending@.len() == all.len() - list@.len(),
            forall|i: int|
                0 <= i < st.pending@.len() ==> #[trigger] st.pending@[i] == frames[all.len() - 1
                    - i],
        decreases list@.len(),
    {
        let ghost n = list@.len();
        match list.pop() {
            Some(row) => {
                assert(row == all[n - 1]);
                assert(list@ =~= all.take(n - 1));
                st.pending.push(Frame::Change(row));
            },
            None => {},
        }
    }
    assert(st@.pending =~= frames);
    empty
}

/// A connection whose time has passed sends what waits, then one last event,
/// and then nothing more, whenever it is asked.
pub proof fn stream_ends_after_done(s: ChangeStreamSpec, now: u64, later: u64)
    requires
        !s.finished,
        s.pending.len() == 0,
        now >= s.deadline,
    ensures
        next_step(s, now).0 == StreamStepSpec::Emit(done_event_spec(s.since)),
        next_step(next_step(s, now).1, later).0 == StreamStepSpec::End,
        next_step(next_step(s, now).1, later).1 == next_step(s, now).1,
{
}

/// The cursor never runs back, where the waiting changes are in the order of
/// the log and behind the cursor.
pub proof fn cursor_moves_forward(s: ChangeStreamSpec, now: u64)
    requires
        forall|i: int|
            0 <= i < s.pending.len() ==> (#[trigger] s.pending[i] matches Frame::Change(row)
                ==> s.since < row.seq),
        forall|i: int, j: int|
            0 <= i < j < s.pending.len() ==> (#[trigger] s.pending[i] matches Frame::Change(a)
                ==> (#[trigger] s.pending[j] matches Frame::Change(b) ==> a.seq < b.seq)),
    ensures
        s.since <= next_step(s, now).1.since,
        forall|i: int|
            0 <= i < next_step(s, now).1.pending.len() ==> (
            #[trigger] next_step(s, now).1.pending[i] matches Frame::Change(row)
                ==> next_step(s, now).1.since < row.seq),
{
    let t = next_step(s, now).1;
    if !s.finished && s.pending.len() > 0 {
        assert forall|i: int| 0 <= i < t.pending.len() implies (
        #[trigger] t.pending[i] matches Frame::Change(row) ==> t.since < row.seq) by {
            assert(t.pending[i] == s.pending[i + 1]);
            assert(s.pending[0] == s.pending[0]);
        }
    }
}

/// A waiting change is sent as it is, and the cursor then stands on it.
pub proof fn changes_go_out_in_order(s: ChangeStreamSpec, now: u64, row: ChangeRow)
    requires
        !s.finished,
        s.pending.len() > 0,
        s.pending[0] == Frame::Change(row),
    ensures
        next_step(s, now).0 == StreamStepSpec::Emit(
            StreamEventSpec { name: "change"@, data: change_value(row) },
        ),
        next_step(s, now).1.since == row.seq,
        next_step(s, now).1.pending.len() == s.pending.len() - 1,
{
}

/// The changes, as their frames show them.
pub open spec fn change_values(rows: Seq<ChangeRow>) -> Seq<Value> {
    Seq::new(rows.len(), |i: int| change_value(rows[i]))
}

/// The answer to a request for the changes since a cursor.
pub fn list_changes(rows: &Vec<ChangeRow>) -> (r: Json)
    requires
        forall|i: int| 0 <= i < rows@.len() ==> (#[trigger] rows@[i]).changed_at.wf(),
    ensures
        r@ == empty_object().set("changes"@, Value::Array(change_values(rows@))),
{
    let mut out: Vec<Json> = Vec::new();
    let mut i: usize = 0;
    while i < rows.len()
        invariant
            i <= rows@.len(),
            out@.len() == i,
            forall|k: int| 0 <= k < rows@.len() ==> (#[trigger] rows@[k]).changed_at.wf(),
            forall|k: int| 0 <= k < i ==> (#[trigger] out@[k])@ == change_value(rows@[k]),
        decreases rows@.len() - i,
    {
        out.push(change_frame(&rows[i]));
        i = i + 1;
    }
    assert(values(out@) =~= change_values(rows@));
    Json::object().with("changes", Json::Array(out))
}

/// Where a request for changes starts, and how many it asks for: at the
/// beginning and five hundred, where it does not say.
pub fn changes_range(since: Option<i64>, limit: Option<i64>) -> (r: (i64, i64))
    ensures
        r.0 == match since {
            Some(n) => n,
            None => 0i64,
        },
        r.1 == match limit {
            Some(n) => n,
            None => STREAM_BATCH,
        },
{
    (
        match since {
            Some(n) => n,
            None => 0,
        },
        match limit {
            Some(n) => n,
            None => STREAM_BATCH,
        },
    )
}

} // verus!
