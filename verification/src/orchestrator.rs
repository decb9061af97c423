//! The conversation orchestrator: one cancellable reply-task slot per
//! conversation. On an admitted message it retires the conversation's running
//! predecessor (the cancel handshake), registers a fresh task, and hands the
//! caller the pair of actions to perform. The control loop around it owns
//! this state exclusively; spawned tasks never touch it.
//!
//! The model keeps the full log of every task ever started. A task's entry in
//! the per-conversation slot lingers after natural completion; the next
//! admission for that conversation then retires nothing — an explicit no-op,
//! not an accident of channel semantics.

use crate::addressing::spec_should_respond;
use crate::message::{AgentIdentity, InboundMessage, Sender};
use vstd::prelude::*;

verus! {

/// The lifecycle of one reply task.
#[derive(Clone, Copy, Debug, PartialEq, Eq, Structural)]
pub enum TaskState {
    /// The reply is still being composed; its cancellation handle is live.
    Running,
    /// A newer message for the same conversation superseded it; the
    /// cancellation was acknowledged and it will never send.
    Cancelled,
    /// It completed naturally (its reply was sent); its slot entry may
    /// linger harmlessly until the next admission replaces it.
    Finished,
}

/// One spawned reply task, identified by its index in the task log.
#[derive(Clone, Copy, Debug, PartialEq, Eq, Structural)]
pub struct TaskRecord {
    pub chat_id: i64,
    pub message_id: i64,
    pub state: TaskState,
}

/// Admission outcome for one inbound message.
#[derive(Clone, Copy, Debug, PartialEq, Eq)]
pub enum Admission {
    /// Not admitted: shutdown has fired, or the addressing filter declined
    /// the message.
    Rejected,
    /// A fresh task was registered under index `task`; `cancelled` names the
    /// predecessor that was retired through the cancel handshake, if one was
    /// still running.
    Started { task: usize, cancelled: Option<usize> },
}

/// The orchestrator's control state: the log of every task spawned, the
/// per-conversation cancel slot, and the shutdown latch.
pub struct Orchestrator {
    pub tasks: Vec<TaskRecord>,
    pub slots: Vec<(i64, usize)>,
    pub shutdown: bool,
}

/// The orchestrator's mathematical model: the cancel slot as a map from
/// conversation id to the index of its latest task.
#[verifier::ext_equal]
pub struct OrchModel {
    pub tasks: Seq<TaskRecord>,
    pub slot: Map<i64, usize>,
    pub shutdown: bool,
}

/// The map a slot vector denotes: later entries override earlier ones
/// (they never collide while the keys stay unique).
pub open spec fn slots_map(slots: Seq<(i64, usize)>) -> Map<i64, usize>
    decreases slots.len(),
{
    if slots.len() == 0 {
        Map::empty()
    } else {
        slots_map(slots.drop_last()).insert(slots.last().0, slots.last().1)
    }
}

/// No two slot entries concern the same conversation.
pub open spec fn slots_unique(slots: Seq<(i64, usize)>) -> bool {
    forall|i: int, j: int|
        0 <= i < j < slots.len() ==> (#[trigger] slots[i]).0 != (#[trigger] slots[j]).0
}

impl View for Orchestrator {
    type V = OrchModel;

    open spec fn view(&self) -> OrchModel {
        OrchModel { tasks: self.tasks@, slot: slots_map(self.slots@), shutdown: self.shutdown }
    }
}

impl OrchModel {
    /// Every slot entry points into the task log, at a task of its own
    /// conversation; and every running task is its conversation's slot
    /// entry. Hence a conversation has at most one live handle.
    pub open spec fn wf(self) -> bool {
        &&& forall|c: i64|
            self.slot.contains_key(c) ==> (#[trigger] self.slot[c]) < self.tasks.len()
                && self.tasks[self.slot[c] as int].chat_id == c
        &&& forall|t: int|
            0 <= t < self.tasks.len() && (#[trigger] self.tasks[t]).state is Running
                ==> self.slot.contains_key(self.tasks[t].chat_id)
                && self.slot[self.tasks[t].chat_id] == t
    }
}

/// Which task the arrival of a message for `chat_id` must retire: the slot's
/// task while it still runs; none when it already finished naturally, or no
/// slot entry exists.
pub open spec fn spec_cancel_target(s: OrchModel, chat_id: i64) -> Option<usize> {
    if s.slot.contains_key(chat_id) {
        let t = s.slot[chat_id];
        if t < s.tasks.len() && s.tasks[t as int].state is Running {
            Some(t)
        } else {
            None
        }
    } else {
        None
    }
}

/// The admission transition: retire the running predecessor (if any), then
/// register and start a fresh task for the message.
pub open spec fn spec_admit(s: OrchModel, chat_id: i64, message_id: i64) -> OrchModel {
    let retired = match spec_cancel_target(s, chat_id) {
        Some(t) => s.tasks.update(
            t as int,
            TaskRecord {
                chat_id: s.tasks[t as int].chat_id,
                message_id: s.tasks[t as int].message_id,
                state: TaskState::Cancelled,
            },
        ),
        None => s.tasks,
    };
    OrchModel {
        tasks: retired.push(
            TaskRecord { chat_id, message_id, state: TaskState::Running },
        ),
        slot: s.slot.insert(chat_id, s.tasks.len() as usize),
        shutdown: s.shutdown,
    }
}

/// One control-loop step: the message is admitted exactly when shutdown has
/// not fired and the addressing filter accepts it; otherwise nothing changes.
pub open spec fn spec_step(
    s: OrchModel,
    me: AgentIdentity,
    msg: InboundMessage,
    reply_author: Option<Sender>,
) -> OrchModel {
    if !s.shutdown && spec_should_respond(me, msg, reply_author) {
        spec_admit(s, msg.chat_id, msg.id)
    } else {
        s
    }
}

/// Drain a buffer: feed the control loop one (message, resolved reply author)
/// pair after another.
pub open spec fn spec_drain(
    s: OrchModel,
    me: AgentIdentity,
    buffered: Seq<(InboundMessage, Option<Sender>)>,
) -> OrchModel
    decreases buffered.len(),
{
    if buffered.len() == 0 {
        s
    } else {
        spec_drain(
            spec_step(s, me, buffered[0].0, buffered[0].1),
            me,
            buffered.drop_first(),
        )
    }
}

/// Once the shutdown signal has fired, no further inbound message is admitted
/// into a new task: draining any buffered messages changes nothing.
pub proof fn lemma_shutdown_admits_nothing(
    s: OrchModel,
    me: AgentIdentity,
    buffered: Seq<(InboundMessage, Option<Sender>)>,
)
    requires
        s.shutdown,
    ensures
        spec_drain(s, me, buffered) == s,
    decreases buffered.len(),
{
    if buffered.len() > 0 {
        lemma_shutdown_admits_nothing(s, me, buffered.drop_first());
    }
}

/// While shutdown has not fired, draining a buffer in which every message is
/// addressed to the agent and belongs to one conversation admits each message
/// in turn: the control loop's steps and the admission burst coincide.
pub proof fn lemma_drain_is_admit_burst(
    s: OrchModel,
    me: AgentIdentity,
    chat_id: i64,
    buffered: Seq<(InboundMessage, Option<Sender>)>,
)
    requires
        !s.shutdown,
        forall|k: int|
            0 <= k < buffered.len() ==> spec_should_respond(
                me,
                (#[trigger] buffered[k]).0,
                buffered[k].1,
            ) && buffered[k].0.chat_id == chat_id,
    ensures
        spec_drain(s, me, buffered) == spec_admit_burst(
            s,
            chat_id,
            buffered.map_values(|p: (InboundMessage, Option<Sender>)| p.0.id),
        ),
    decreases buffered.len(),
{
    let ids = buffered.map_values(|p: (InboundMessage, Option<Sender>)| p.0.id);
    if buffered.len() == 0 {
        assert(ids.len() == 0);
    } else {
        let s1 = spec_step(s, me, buffered[0].0, buffered[0].1);
        assert(s1 == spec_admit(s, chat_id, buffered[0].0.id));
        assert(s1.shutdown == s.shutdown);
        lemma_drain_is_admit_burst(s1, me, chat_id, buffered.drop_first());
        assert(buffered.drop_first().map_values(|p: (InboundMessage, Option<Sender>)| p.0.id)
            =~= ids.drop_first());
        assert(ids[0] == buffered[0].0.id);
    }
}

/// The natural-completion transition: the task's reply was sent.
pub open spec fn spec_finish(s: OrchModel, task: usize) -> OrchModel {
    OrchModel {
        tasks: s.tasks.update(
            task as int,
            TaskRecord {
                chat_id: s.tasks[task as int].chat_id,
                message_id: s.tasks[task as int].message_id,
                state: TaskState::Finished,
            },
        ),
        slot: s.slot,
        shutdown: s.shutdown,
    }
}

/// After a task completes naturally, a later admission for its conversation
/// retires nothing: the lingering slot entry makes the handshake a no-op by
/// contract, not by accident of channel semantics.
pub proof fn lemma_finished_task_is_not_cancelled(s: OrchModel, task: usize)
    requires
        s.wf(),
        task < s.tasks.len(),
        s.tasks[task as int].state is Running,
    ensures
        spec_cancel_target(spec_finish(s, task), s.tasks[task as int].chat_id)
            == None::<usize>,
{
}

proof fn lemma_slots_unique_drop_last(slots: Seq<(i64, usize)>)
    requires
        slots_unique(slots),
        slots.len() > 0,
    ensures
        slots_unique(slots.drop_last()),
{
    assert forall|i: int, j: int| 0 <= i < j < slots.drop_last().len() implies (
    #[trigger] slots.drop_last()[i]).0 != (#[trigger] slots.drop_last()[j]).0 by {
        assert(slots.drop_last()[i] == slots[i]);
        assert(slots.drop_last()[j] == slots[j]);
    }
}

proof fn lemma_slots_map_entry(slots: Seq<(i64, usize)>, i: int)
    requires
        slots_unique(slots),
        0 <= i < slots.len(),
    ensures
        slots_map(slots).contains_key(slots[i].0),
        slots_map(slots)[slots[i].0] == slots[i].1,
    decreases slots.len(),
{
    if i < slots.len() - 1 {
        lemma_slots_unique_drop_last(slots);
        assert(slots.drop_last()[i] == slots[i]);
        lemma_slots_map_entry(slots.drop_last(), i);
        assert(slots.last().0 != slots[i].0);
    }
}

proof fn lemma_slots_map_absent(slots: Seq<(i64, usize)>, chat_id: i64)
    requires
        forall|k: int| 0 <= k < slots.len() ==> (#[trigger] slots[k]).0 != chat_id,
    ensures
        !slots_map(slots).contains_key(chat_id),
    decreases slots.len(),
{
    if slots.len() > 0 {
        assert forall|k: int| 0 <= k < slots.drop_last().len() implies (
        #[trigger] slots.drop_last()[k]).0 != chat_id by {
            assert(slots.drop_last()[k] == slots[k]);
        }
        lemma_slots_map_absent(slots.drop_last(), chat_id);
    }
}

proof fn lemma_slots_map_update(slots: Seq<(i64, usize)>, i: int, task: usize)
    requires
        slots_unique(slots),
        0 <= i < slots.len(),
    ensures
        slots_map(slots.update(i, (slots[i].0, task))) == slots_map(slots).insert(
            slots[i].0,
            task,
        ),
        slots_unique(slots.update(i, (slots[i].0, task))),
    decreases slots.len(),
{
    let c = slots[i].0;
    let updated = slots.update(i, (c, task));
    assert forall|p: int, q: int| 0 <= p < q < updated.len() implies (#[trigger] updated[p]).0 != (
    #[trigger] updated[q]).0 by {
        assert(updated[p].0 == slots[p].0);
        assert(updated[q].0 == slots[q].0);
    }
    if i == slots.len() - 1 {
        assert(updated.drop_last() =~= slots.drop_last());
        assert(slots_map(updated) =~= slots_map(slots).insert(c, task));
    } else {
        lemma_slots_unique_drop_last(slots);
        assert(updated.drop_last() =~= slots.drop_last().update(i, (c, task)));
        assert(slots.drop_last()[i] == slots[i]);
        lemma_slots_map_update(slots.drop_last(), i, task);
        let d = slots.last().0;
        let v = slots.last().1;
        assert(d != c);
        assert(updated.last() == slots.last());
        assert(slots_map(updated) == slots_map(slots.drop_last()).insert(c, task).insert(d, v));
        assert(slots_map(slots.drop_last()).insert(c, task).insert(d, v) =~= slots_map(
            slots.drop_last(),
        ).insert(d, v).insert(c, task));
    }
}

proof fn lemma_slots_map_push(slots: Seq<(i64, usize)>, chat_id: i64, task: usize)
    requires
        slots_unique(slots),
        forall|k: int| 0 <= k < slots.len() ==> (#[trigger] slots[k]).0 != chat_id,
    ensures
        slots_map(slots.push((chat_id, task))) == slots_map(slots).insert(chat_id, task),
        slots_unique(slots.push((chat_id, task))),
    decreases slots.len(),
{
    let pushed = slots.push((chat_id, task));
    assert(pushed.drop_last() =~= slots);
    assert forall|p: int, q: int| 0 <= p < q < pushed.len() implies (#[trigger] pushed[p]).0 != (
    #[trigger] pushed[q]).0 by {
        if q < pushed.len() - 1 {
            assert(pushed[p] == slots[p]);
            assert(pushed[q] == slots[q]);
        } else {
            assert(pushed[p] == slots[p]);
        }
    }
}

/// At most one un-acknowledged cancellation handle — one running task —
/// exists per conversation, in every well-formed state.
pub proof fn lemma_at_most_one_running(s: OrchModel, t1: int, t2: int)
    requires
        s.wf(),
        0 <= t1 < s.tasks.len(),
        0 <= t2 < s.tasks.len(),
        s.tasks[t1].state is Running,
        s.tasks[t2].state is Running,
        s.tasks[t1].chat_id == s.tasks[t2].chat_id,
    ensures
        t1 == t2,
{
}

/// Admission preserves well-formedness.
pub proof fn lemma_admit_preserves_wf(s: OrchModel, chat_id: i64, message_id: i64)
    requires
        s.wf(),
        s.tasks.len() < usize::MAX,
    ensures
        spec_admit(s, chat_id, message_id).wf(),
{
    let s2 = spec_admit(s, chat_id, message_id);
    assert forall|t: int|
        0 <= t < s2.tasks.len() && (#[trigger] s2.tasks[t]).state is Running implies s2
        .slot.contains_key(s2.tasks[t].chat_id) && s2.slot[s2.tasks[t].chat_id] == t by {
        if t < s.tasks.len() {
            assert(s.tasks[t].state is Running);
            if s.tasks[t].chat_id == chat_id {
                assert(spec_cancel_target(s, chat_id) == Some(s.slot[chat_id]));
                assert(s.slot[chat_id] == t);
                assert(false);
            }
        }
    }
}

/// Natural completion preserves well-formedness.
pub proof fn lemma_finish_preserves_wf(s: OrchModel, task: usize)
    requires
        s.wf(),
        task < s.tasks.len(),
    ensures
        spec_finish(s, task).wf(),
{
}

impl Orchestrator {
    /// Well-formedness of the control state.
    pub open spec fn inv(self) -> bool {
        &&& slots_unique(self.slots@)
        &&& self@.wf()
    }

    /// A fresh orchestrator: no tasks, no slots, shutdown not fired.
    pub fn new() -> (r: Orchestrator)
        ensures
            r.inv(),
            r@.tasks == Seq::<TaskRecord>::empty(),
            r@.slot == Map::<i64, usize>::empty(),
            !r@.shutdown,
    {
        Orchestrator { tasks: Vec::new(), slots: Vec::new(), shutdown: false }
    }

    fn slot_position(&self, chat_id: i64) -> (r: Option<usize>)
        ensures
            match r {
                Some(i) => i < self.slots@.len() && self.slots@[i as int].0 == chat_id,
                None => forall|k: int|
                    0 <= k < self.slots@.len() ==> (#[trigger] self.slots@[k]).0 != chat_id,
            },
    {
        let mut i: usize = 0;
        while i < self.slots.len()
            invariant
                i <= self.slots@.len(),
                forall|k: int| 0 <= k < i ==> (#[trigger] self.slots@[k]).0 != chat_id,
            decreases self.slots@.len() - i,
        {
            if self.slots[i].0 == chat_id {
                return Some(i);
            }
            i = i + 1;
        }
        None
    }

    /// Feed one inbound message to the control loop. A message is admitted
    /// exactly when shutdown has not fired and the addressing filter accepts
    /// it; admission performs the cancel handshake on the conversation's
    /// running predecessor (if any) and registers a fresh running task. When
    /// shutdown has fired, nothing changes — buffered messages never enter
    /// new tasks.
    pub fn handle_message(
        &mut self,
        me: &AgentIdentity,
        msg: &InboundMessage,
        reply_author: Option<Sender>,
    ) -> (r: Admission)
        requires
            old(self).inv(),
            old(self).tasks@.len() < usize::MAX,
        ensures
            final(self).inv(),
            final(self)@ == spec_step(old(self)@, *me, *msg, reply_author),
            ({
                let admitted = !old(self)@.shutdown && spec_should_respond(
                    *me,
                    *msg,
                    reply_author,
                );
                if admitted {
                    r == (Admission::Started {
                        task: old(self).tasks@.len() as usize,
                        cancelled: spec_cancel_target(old(self)@, msg.chat_id),
                    })
                } else {
                    r == Admission::Rejected
                }
            }),
    {
        if self.shutdown {
            return Admission::Rejected;
        }
        if !crate::addressing::should_respond(me, msg, reply_author) {
            return Admission::Rejected;
        }
        let chat_id = msg.chat_id;
        let new_task = self.tasks.len();
        let cancelled: Option<usize>;
        match self.slot_position(chat_id) {
            Some(i) => {
                proof {
                    lemma_slots_map_entry(self.slots@, i as int);
                }
                let t = self.slots[i].1;
                let rec = self.tasks[t];
                match rec.state {
                    TaskState::Running => {
                        self.tasks[t] = TaskRecord {
                            chat_id: rec.chat_id,
                            message_id: rec.message_id,
                            state: TaskState::Cancelled,
                        };
                        cancelled = Some(t);
                    },
                    _ => {
                        cancelled = None;
                    },
                }
                proof {
                    lemma_slots_map_update(self.slots@, i as int, new_task);
                }
                self.slots[i] = (chat_id, new_task);
            },
            None => {
                proof {
                    lemma_slots_map_absent(self.slots@, chat_id);
                    lemma_slots_map_push(self.slots@, chat_id, new_task);
                }
                self.slots.push((chat_id, new_task));
                cancelled = None;
            },
        }
        self.tasks.push(TaskRecord { chat_id, message_id: msg.id, state: TaskState::Running });
        proof {
            assert(self@ =~= spec_admit(old(self)@, msg.chat_id, msg.id));
            lemma_admit_preserves_wf(old(self)@, msg.chat_id, msg.id);
        }
        Admission::Started { task: new_task, cancelled }
    }

    /// The supervisor reports that a task completed naturally — its reply
    /// was sent. Only a running task can report this: a cancelled task was
    /// aborted before any send, and never reports.
    pub fn on_task_finished(&mut self, task: usize)
        requires
            old(self).inv(),
            task < old(self).tasks@.len(),
            old(self).tasks@[task as int].state is Running,
        ensures
            final(self).inv(),
            final(self)@ == spec_finish(old(self)@, task),
    {
        let rec = self.tasks[task];
        self.tasks[task] = TaskRecord {
            chat_id: rec.chat_id,
            message_id: rec.message_id,
            state: TaskState::Finished,
        };
        proof {
            assert(self@ =~= spec_finish(old(self)@, task));
            lemma_finish_preserves_wf(old(self)@, task);
        }
    }

    /// Latch the shutdown signal: every later message is rejected.
    pub fn on_shutdown(&mut self)
        requires
            old(self).inv(),
        ensures
            final(self).inv(),
            final(self)@ == (OrchModel {
                shutdown: true,
                ..old(self)@
            }),
    {
        self.shutdown = true;
    }

    pub fn is_shutdown(&self) -> (r: bool)
        ensures
            r == self@.shutdown,
    {
        self.shutdown
    }

    pub fn task_count(&self) -> (r: usize)
        ensures
            r == self@.tasks.len(),
    {
        self.tasks.len()
    }

    pub fn task(&self, i: usize) -> (r: TaskRecord)
        requires
            i < self@.tasks.len(),
        ensures
            r == self@.tasks[i as int],
    {
        self.tasks[i]
    }
}

/// Run a burst: admit one message id after another, all for one
/// conversation, with no completion in between.
pub open spec fn spec_admit_burst(s: OrchModel, chat_id: i64, message_ids: Seq<i64>) -> OrchModel
    decreases message_ids.len(),
{
    if message_ids.len() == 0 {
        s
    } else {
        spec_admit_burst(spec_admit(s, chat_id, message_ids[0]), chat_id, message_ids.drop_first())
    }
}

/// For a burst of N messages arriving for one conversation before any reply
/// completes, only the task of the Nth message is left running; the tasks of
/// the earlier N-1 messages are all cancelled, so none of them can ever
/// report a send. Tasks that predate the burst are untouched unless they
/// were that conversation's running task, which is cancelled; other
/// conversations are never affected.
pub proof fn lemma_burst_single_survivor(s: OrchModel, chat_id: i64, message_ids: Seq<i64>)
    requires
        s.wf(),
        message_ids.len() > 0,
        s.tasks.len() + message_ids.len() <= usize::MAX,
    ensures
        ({
            let s2 = spec_admit_burst(s, chat_id, message_ids);
            &&& s2.wf()
            &&& s2.tasks.len() == s.tasks.len() + message_ids.len()
            &&& forall|t: int|
                0 <= t < s.tasks.len() ==> #[trigger] s2.tasks[t] == (
                if s.tasks[t].state is Running && s.tasks[t].chat_id == chat_id {
                    TaskRecord {
                        chat_id: s.tasks[t].chat_id,
                        message_id: s.tasks[t].message_id,
                        state: TaskState::Cancelled,
                    }
                } else {
                    s.tasks[t]
                })
            &&& forall|k: int|
                0 <= k < message_ids.len() ==> (#[trigger] s2.tasks[s.tasks.len() + k]).chat_id
                    == chat_id && s2.tasks[s.tasks.len() + k].message_id == message_ids[k]
            &&& s2.tasks.last().state is Running
            &&& forall|k: int|
                0 <= k < message_ids.len() - 1 ==> (#[trigger] s2.tasks[s.tasks.len() + k]).state
                    is Cancelled
        }),
    decreases message_ids.len(),
{
    let s1 = spec_admit(s, chat_id, message_ids[0]);
    lemma_admit_preserves_wf(s, chat_id, message_ids[0]);
    let rest = message_ids.drop_first();
    if rest.len() == 0 {
        assert(spec_admit_burst(s1, chat_id, rest) == s1);
    } else {
        lemma_burst_single_survivor(s1, chat_id, rest);
        let s2 = spec_admit_burst(s1, chat_id, rest);
        assert forall|t: int| 0 <= t < s.tasks.len() implies #[trigger] s2.tasks[t] == (
        if s.tasks[t].state is Running && s.tasks[t].chat_id == chat_id {
            TaskRecord {
                chat_id: s.tasks[t].chat_id,
                message_id: s.tasks[t].message_id,
                state: TaskState::Cancelled,
            }
        } else {
            s.tasks[t]
        }) by {
            if s.tasks[t].state is Running && s.tasks[t].chat_id == chat_id {
                assert(s.slot[chat_id] == t);
                assert(spec_cancel_target(s, chat_id) == Some(s.slot[chat_id]));
                assert(!(s1.tasks[t].state is Running));
            } else {
                assert(s1.tasks[t] == s.tasks[t]);
            }
        }
        assert(s1.tasks[s.tasks.len() as int].state is Running);
        assert(s1.tasks[s.tasks.len() as int].chat_id == chat_id);
        assert(s2.tasks[s.tasks.len() as int].state is Cancelled);
        assert forall|k: int|
            0 <= k < message_ids.len() implies (#[trigger] s2.tasks[s.tasks.len() + k]).chat_id
            == chat_id && s2.tasks[s.tasks.len() + k].message_id == message_ids[k] by {
            if k > 0 {
                assert(s2.tasks[s1.tasks.len() + (k - 1)].message_id == rest[k - 1]);
                assert(rest[k - 1] == message_ids[k]);
            }
        }
        assert forall|k: int|
            0 <= k < message_ids.len() - 1 implies (#[trigger] s2.tasks[s.tasks.len() + k]).state
            is Cancelled by {
            if k > 0 {
                assert(s2.tasks[s1.tasks.len() + (k - 1)].state is Cancelled);
            }
        }
    }
}

/// Duplicate delivery of the identical message (same conversation, same
/// message id, no intervening traffic) runs the cancel-then-respond sequence
/// twice: the second admission spawns a second, distinct task and retires the
/// first through the handshake. The orchestrator deduplicates by conversation
/// and recency only, never by content.
pub proof fn lemma_duplicate_message_not_merged(s: OrchModel, chat_id: i64, message_id: i64)
    requires
        s.wf(),
        s.tasks.len() + 2 <= usize::MAX,
    ensures
        ({
            let s1 = spec_admit(s, chat_id, message_id);
            let s2 = spec_admit(s1, chat_id, message_id);
            &&& s2.tasks.len() == s.tasks.len() + 2
            &&& spec_cancel_target(s1, chat_id) == Some((s.tasks.len()) as usize)
            &&& s2.tasks[s.tasks.len() as int] == (TaskRecord {
                chat_id,
                message_id,
                state: TaskState::Cancelled,
            })
            &&& s2.tasks.last() == (TaskRecord {
                chat_id,
                message_id,
                state: TaskState::Running,
            })
        }),
{
    lemma_admit_preserves_wf(s, chat_id, message_id);
}

} // verus!
