//! The update-consumption protocol: a monotonic cursor over an ordered event
//! feed, plus the per-tick decisions.  The caller performs the fetch and the
//! reply transport; this module decides what a tick does with the outcome.

use crate::detect::{score, score_exceeds, spec_score, ConfigView, DetectorConfig};
use crate::layout::remap_seq;
use crate::text::{copy_chars, lower_of, lowercase};
use vstd::prelude::*;

verus! {

/// One received message of the feed: a strictly increasing sequence id, the
/// optional origin conversation and message ids, the optional raw text, and
/// the arrival timestamp.
pub struct InboundEvent {
    pub seq_id: i64,
    pub conversation_id: Option<i64>,
    pub message_id: Option<i64>,
    pub text: Option<Vec<char>>,
    pub timestamp: i64,
}

/// Ghost form of an inbound event.
pub struct EventView {
    pub seq_id: i64,
    pub conversation_id: Option<i64>,
    pub message_id: Option<i64>,
    pub text: Option<Seq<char>>,
    pub timestamp: i64,
}

impl View for InboundEvent {
    type V = EventView;

    open spec fn view(&self) -> EventView {
        EventView {
            seq_id: self.seq_id,
            conversation_id: self.conversation_id,
            message_id: self.message_id,
            text: match self.text {
                Some(t) => Some(t@),
                None => None,
            },
            timestamp: self.timestamp,
        }
    }
}

/// One corrected reply, addressed by conversation and origin message.
pub struct Reply {
    pub conversation_id: i64,
    pub message_id: i64,
    pub text: Vec<char>,
}

/// Ghost form of a reply.
pub struct ReplyView {
    pub conversation_id: i64,
    pub message_id: i64,
    pub text: Seq<char>,
}

impl View for Reply {
    type V = ReplyView;

    open spec fn view(&self) -> ReplyView {
        ReplyView {
            conversation_id: self.conversation_id,
            message_id: self.message_id,
            text: self.text@,
        }
    }
}

/// The views of a batch of events, event by event.
pub open spec fn event_views(evs: Seq<InboundEvent>) -> Seq<EventView> {
    evs.map_values(|e: InboundEvent| e@)
}

/// The views of a list of replies, reply by reply.
pub open spec fn reply_views(rs: Seq<Reply>) -> Seq<ReplyView> {
    rs.map_values(|r: Reply| r@)
}

/// A recoverable per-tick failure: the loop logs it, leaves the cursor
/// unchanged and retries on the next tick.
#[derive(Clone, Copy, Debug, PartialEq, Eq, Structural)]
pub enum FeedError {
    /// The fetch did not complete at the transport level.
    Transport,
    /// The feed answered with an explicit not-ok status.
    NotOk,
    /// The feed's answer carries no status flag at all.
    MissingOkField,
    /// The feed's answer could not be read as a batch of events.
    MalformedPayload,
}

/// One per-event observability record: the sequence id, the conversation id
/// or `-1` when absent, and the raw text when present.
pub struct LogRecord {
    pub seq_id: i64,
    pub chat_id: i64,
    pub text: Option<Vec<char>>,
}

/// Checks the feed-level status flag of a fetch answer.
pub fn check_response_ok(ok_field: Option<bool>) -> (r: Result<(), FeedError>)
    ensures
        (ok_field == Some(true)) <==> (r is Ok),
        ok_field == Some(false) ==> r == Result::<(), FeedError>::Err(FeedError::NotOk),
        ok_field is None ==> r == Result::<(), FeedError>::Err(FeedError::MissingOkField),
{
    match ok_field {
        Some(true) => Ok(()),
        Some(false) => Err(FeedError::NotOk),
        None => Err(FeedError::MissingOkField),
    }
}

/// Builds one observability record per event of a batch.
pub fn log_records(batch: &Vec<InboundEvent>) -> (r: Vec<LogRecord>)
    ensures
        r@.len() == batch@.len(),
        forall|i: int|
            0 <= i < batch@.len() ==> {
                &&& (#[trigger] r@[i]).seq_id == batch@[i]@.seq_id
                &&& r@[i].chat_id == match batch@[i]@.conversation_id {
                    Some(c) => c,
                    None => -1i64,
                }
                &&& (r@[i].text is Some) <==> (batch@[i]@.text is Some)
                &&& (r@[i].text is Some) ==> r@[i].text->0@ == batch@[i]@.text->0
            },
{
    let mut r: Vec<LogRecord> = Vec::new();
    let mut i: usize = 0;
    while i < batch.len()
        invariant
            i <= batch@.len(),
            r@.len() == i,
            forall|j: int|
                0 <= j < i ==> {
                    &&& (#[trigger] r@[j]).seq_id == batch@[j]@.seq_id
                    &&& r@[j].chat_id == match batch@[j]@.conversation_id {
                        Some(c) => c,
                        None => -1i64,
                    }
                    &&& (r@[j].text is Some) <==> (batch@[j]@.text is Some)
                    &&& (r@[j].text is Some) ==> r@[j].text->0@ == batch@[j]@.text->0
                },
        decreases batch@.len() - i,
    {
        let e = &batch[i];
        let chat_id: i64 = match e.conversation_id {
            Some(c) => c,
            None => -1,
        };
        let text: Option<Vec<char>> = match &e.text {
            Some(t) => Some(copy_chars(t)),
            None => None,
        };
        r.push(LogRecord { seq_id: e.seq_id, chat_id, text });
        i += 1;
    }
    r
}

/// Whether a tick dispatches a reply for an event: its text, conversation id
/// and message id are all present, and the lowercased text scores above the
/// threshold.
pub open spec fn spec_dispatchable(cfg: ConfigView, e: EventView) -> bool {
    &&& e.text is Some
    &&& e.conversation_id is Some
    &&& e.message_id is Some
    &&& score_exceeds(spec_score(cfg, lower_of(e.text->0)), cfg.threshold_num, cfg.threshold_den)
}

/// The reply a dispatched event produces: the lowercased text remapped into
/// the native alphabet, addressed to the event's conversation and message.
pub open spec fn spec_reply(cfg: ConfigView, e: EventView) -> ReplyView {
    ReplyView {
        conversation_id: e.conversation_id->0,
        message_id: e.message_id->0,
        text: remap_seq(cfg.layout, lower_of(e.text->0)),
    }
}

/// The replies a whole batch produces, in batch order.
pub open spec fn spec_replies(cfg: ConfigView, evs: Seq<EventView>) -> Seq<ReplyView>
    decreases evs.len(),
{
    if evs.len() == 0 {
        Seq::empty()
    } else {
        spec_replies(cfg, evs.drop_last()) + if spec_dispatchable(cfg, evs.last()) {
            seq![spec_reply(cfg, evs.last())]
        } else {
            Seq::empty()
        }
    }
}

/// Where the cursor stands after a successfully processed batch: unchanged
/// for an empty batch, else the last (in feed order: the highest) sequence
/// id of the batch.
pub open spec fn spec_advance(cursor: i64, evs: Seq<EventView>) -> i64 {
    if evs.len() == 0 {
        cursor
    } else {
        evs.last().seq_id
    }
}

/// The polling loop's single piece of state: the highest sequence id that
/// has been fully processed.
pub struct Cursor {
    pub last_confirmed: i64,
}

impl Cursor {
    /// A cursor starting at a configured offset.
    pub fn new(start: i64) -> (r: Cursor)
        ensures
            r.last_confirmed == start,
    {
        Cursor { last_confirmed: start }
    }

    /// One tick of the protocol, given the outcome of the fetch the caller
    /// performed.  A failed fetch leaves the cursor untouched and hands the
    /// error back; a successful one advances the cursor over the whole batch
    /// and yields the replies to dispatch, in order.  Events with absent
    /// text, conversation id or message id are skipped for dispatch but
    /// still count for cursor advancement.
    pub fn tick(&mut self, cfg: &DetectorConfig, fetched: Result<Vec<InboundEvent>, FeedError>)
        -> (r: Result<Vec<Reply>, FeedError>)
        requires
            cfg.wf(),
        ensures
            fetched matches Err(e) ==> *final(self) == *old(self) && r == Result::<
                Vec<Reply>,
                FeedError,
            >::Err(e),
            fetched matches Ok(batch) ==> {
                &&& final(self).last_confirmed == spec_advance(
                    old(self).last_confirmed,
                    event_views(batch@),
                )
                &&& r is Ok
                &&& reply_views((r->Ok_0)@) == spec_replies(cfg@, event_views(batch@))
            },
    {
        match fetched {
            Err(e) => Err(e),
            Ok(batch) => {
                if batch.len() > 0 {
                    self.last_confirmed = batch[batch.len() - 1].seq_id;
                    proof {
                        let evs = event_views(batch@);
                        assert(evs.last() == batch@[batch@.len() - 1]@);
                    }
                }
                let ghost evs = event_views(batch@);
                let mut replies: Vec<Reply> = Vec::new();
                let mut i: usize = 0;
                proof {
                    assert(evs.take(0) =~= Seq::<EventView>::empty());
                    assert(reply_views(replies@) =~= Seq::<ReplyView>::empty());
                }
                while i < batch.len()
                    invariant
                        cfg.wf(),
                        i <= batch@.len(),
                        evs == event_views(batch@),
                        reply_views(replies@) =~= spec_replies(cfg@, evs.take(i as int)),
                    decreases batch@.len() - i,
                {
                    proof {
                        assert(evs.take(i + 1).drop_last() =~= evs.take(i as int));
                        assert(evs.take(i + 1).last() == evs[i as int]);
                        assert(evs[i as int] == batch@[i as int]@);
                    }
                    let e = &batch[i];
                    if e.text.is_some() && e.conversation_id.is_some() && e.message_id.is_some() {
                        let lowered = lowercase(e.text.as_ref().unwrap());
                        let sc = score(cfg, &lowered);
                        if sc.exceeds(cfg.threshold_num, cfg.threshold_den) {
                            let corrected = cfg.layout.remap(&lowered);
                            let ghost old_replies = replies@;
                            let rep = Reply {
                                conversation_id: e.conversation_id.unwrap(),
                                message_id: e.message_id.unwrap(),
                                text: corrected,
                            };
                            proof {
                                assert(rep@ == spec_reply(cfg@, evs[i as int]));
                                assert(reply_views(old_replies.push(rep)) =~= reply_views(
                                    old_replies,
                                ).push(rep@));
                            }
                            replies.push(rep);
                        }
                    }
                    i += 1;
                }
                proof {
                    assert(evs.take(evs.len() as int) =~= evs);
                }
                Ok(replies)
            },
        }
    }
}

/// Law: when every event of the batch carries a sequence id above the
/// cursor — the fetch asks for exactly those — the cursor never decreases
/// across a tick.
pub proof fn lemma_cursor_monotonic(cursor: i64, batch: Seq<EventView>)
    requires
        forall|i: int| 0 <= i < batch.len() ==> (#[trigger] batch[i]).seq_id > cursor,
    ensures
        spec_advance(cursor, batch) >= cursor,
{
    if batch.len() > 0 {
        assert(batch[batch.len() - 1].seq_id > cursor);
    }
}

/// Law: the feed delivers batches in ascending sequence-id order, so the
/// cursor advances to exactly the maximum sequence id of a non-empty batch,
/// and an empty batch leaves it unchanged.
pub proof fn lemma_cursor_advances_to_max(cursor: i64, batch: Seq<EventView>)
    requires
        forall|i: int, j: int|
            0 <= i <= j < batch.len() ==> (#[trigger] batch[i]).seq_id <= (
            #[trigger] batch[j]).seq_id,
    ensures
        batch.len() == 0 ==> spec_advance(cursor, batch) == cursor,
        forall|i: int|
            0 <= i < batch.len() ==> (#[trigger] batch[i]).seq_id <= spec_advance(cursor, batch),
        batch.len() > 0 ==> batch.contains(batch.last()) && spec_advance(cursor, batch)
            == batch.last().seq_id,
{
    if batch.len() > 0 {
        assert(batch[batch.len() - 1] == batch.last());
    }
}

} // verus!
