use vstd::prelude::*;

use crate::client::{chat_outcome, failure_text, read_chat_reply, Exchange, ServiceFailure};
use crate::db::{
    add_message, appended, delete_messages_after, get_messages, has_conversation, in_conversation,
    is_well_formed_id, law_messages_keep_call_order, message_time, store_error_text, survives,
    well_formed_id, StoreError, Store,
};
use crate::history::{project_history, projects_all};
use crate::seqs::keep;
use crate::model::{role_of, ChatRequest, ChatResponse, Message, Role};

verus! {

/// Why a turn failed: the store refused a write, or the completion service
/// gave no usable answer.
#[derive(Clone, Copy, Debug, PartialEq, Eq, Structural)]
pub enum TurnError {
    Storage(StoreError),
    Service(ServiceFailure),
}

impl TurnError {
    pub fn describe(&self) -> (r: &'static str)
        ensures
            r@ == match *self {
                TurnError::Storage(e) => store_error_text(e),
                TurnError::Service(f) => failure_text(f),
            },
    {
        match self {
            TurnError::Storage(e) => e.describe(),
            TurnError::Service(f) => f.describe(),
        }
    }
}

/// `req` asks `model` for a reply to the whole stored history of `cid`.
pub open spec fn requests_history(ms: Seq<Message>, cid: Seq<char>, model: Seq<char>, req: ChatRequest) -> bool {
    &&& req.model@ == model
    &&& !req.stream
    &&& projects_all(in_conversation(ms, cid), req.messages@)
}

/// The request for a reply to what conversation `conversation_id` holds now.
fn history_request(store: &Store, conversation_id: &str, model: &str) -> (r: ChatRequest)
    requires
        store.wf(),
    ensures
        requests_history(store.messages@, conversation_id@, model@, r),
{
    let history = get_messages(store, conversation_id);
    let messages = project_history(&history);
    ChatRequest { model: String::from_str(model), messages, stream: false }
}

/// First half of a send turn: stores the user's message, then builds the
/// completion request over the conversation's history, that message included.
/// A refused write is reported and leaves the store as it was.
pub fn begin_send_turn(store: &mut Store, conversation_id: &str, content: &str, model: &str) -> (r: Result<ChatRequest, TurnError>)
    requires
        old(store).wf(),
    ensures
        final(store).wf(),
        r == Err::<ChatRequest, TurnError>(TurnError::Storage(StoreError::UnknownConversation))
            <==> !has_conversation(old(store).conversations@, conversation_id@),
        has_conversation(old(store).conversations@, conversation_id@) && old(store).clock == i64::MAX
            ==> r == Err::<ChatRequest, TurnError>(TurnError::Storage(StoreError::ClockExhausted)),
        has_conversation(old(store).conversations@, conversation_id@) && old(store).clock < i64::MAX
            && r is Err ==> r == Err::<ChatRequest, TurnError>(TurnError::Storage(StoreError::DuplicateId)),
        r == Err::<ChatRequest, TurnError>(TurnError::Storage(StoreError::DuplicateId)) ==> exists|j: int|
            0 <= j < old(store).messages@.len() && well_formed_id(#[trigger] old(store).messages@[j].id@),
        r is Err ==> *final(store) == *old(store) && r->Err_0 is Storage,
        r is Ok ==> {
            let m = final(store).messages@.last();
            &&& appended(*old(store), *final(store), m)
            &&& m.conversation_id@ == conversation_id@
            &&& m.role == Role::User
            &&& m.content@ == content@
            &&& requests_history(final(store).messages@, conversation_id@, model@, r->Ok_0)
        },
{
    proof {
        reveal_strlit("user");
    }
    assert(role_of("user"@) == Some(Role::User));
    match add_message(store, conversation_id, "user", content) {
        Err(e) => Err(TurnError::Storage(e)),
        Ok(_) => Ok(history_request(store, conversation_id, model)),
    }
}

/// First half of a regenerate turn: the completion request over the
/// conversation's history as it stands. The store is only read.
pub fn begin_regenerate_turn(store: &Store, conversation_id: &str, model: &str) -> (r: ChatRequest)
    requires
        store.wf(),
    ensures
        requests_history(store.messages@, conversation_id@, model@, r),
{
    history_request(store, conversation_id, model)
}

/// Second half of either turn: reads the service's reply and stores its
/// content as the conversation's newest message, from the assistant. A
/// failed call is reported and leaves the store as it was, so the user
/// message of a send turn stays on record, unanswered.
pub fn finish_turn(store: &mut Store, conversation_id: &str, reply: Exchange<ChatResponse>) -> (r: Result<String, TurnError>)
    requires
        old(store).wf(),
    ensures
        final(store).wf(),
        chat_outcome(reply) is Err ==> r == Err::<String, TurnError>(
            TurnError::Service(chat_outcome(reply)->Err_0),
        ),
        chat_outcome(reply) is Ok && !has_conversation(old(store).conversations@, conversation_id@)
            ==> r == Err::<String, TurnError>(TurnError::Storage(StoreError::UnknownConversation)),
        chat_outcome(reply) is Ok && has_conversation(old(store).conversations@, conversation_id@)
            && old(store).clock == i64::MAX ==> r == Err::<String, TurnError>(
            TurnError::Storage(StoreError::ClockExhausted),
        ),
        chat_outcome(reply) is Ok && has_conversation(old(store).conversations@, conversation_id@)
            && old(store).clock < i64::MAX && r is Err ==> r == Err::<String, TurnError>(
            TurnError::Storage(StoreError::DuplicateId),
        ),
        r == Err::<String, TurnError>(TurnError::Storage(StoreError::DuplicateId)) ==> exists|j: int|
            0 <= j < old(store).messages@.len() && well_formed_id(#[trigger] old(store).messages@[j].id@),
        r is Err ==> *final(store) == *old(store),
        r is Ok ==> {
            let m = final(store).messages@.last();
            let before = in_conversation(old(store).messages@, conversation_id@);
            let after = in_conversation(final(store).messages@, conversation_id@);
            &&& chat_outcome(reply) == Ok::<String, ServiceFailure>(r->Ok_0)
            &&& appended(*old(store), *final(store), m)
            &&& m.conversation_id@ == conversation_id@
            &&& m.role == Role::Assistant
            &&& m.content@ == r->Ok_0@
            &&& after.len() == before.len() + 1
            &&& after.drop_last() == before
            &&& after.last() == m
        },
{
    let content = match read_chat_reply(reply) {
        Err(f) => {
            return Err(TurnError::Service(f));
        },
        Ok(c) => c,
    };
    proof {
        reveal_strlit("user");
        reveal_strlit("assistant");
        assert("assistant"@.len() == 9);
        assert("user"@.len() == 4);
    }
    assert(role_of("assistant"@) == Some(Role::Assistant));
    let ghost before = *store;
    match add_message(store, conversation_id, "assistant", content.as_str()) {
        Err(e) => Err(TurnError::Storage(e)),
        Ok(m) => {
            proof {
                law_messages_keep_call_order(before, *store, m, conversation_id@);
                assert(in_conversation(before.messages@, conversation_id@).push(m).drop_last()
                    =~= in_conversation(before.messages@, conversation_id@));
            }
            Ok(content)
        },
    }
}

/// Discards the branch of a conversation after one of its messages: deletes
/// every message of `conversation_id` strictly later than `after_message_id`.
/// Both identifiers must be in the form that the store hands out; otherwise
/// the store is left as it was and the call reports a malformed identifier.
pub fn truncate_conversation(store: &mut Store, conversation_id: &str, after_message_id: &str) -> (r: Result<(), TurnError>)
    requires
        old(store).wf(),
    ensures
        final(store).wf(),
        r is Err <==> !well_formed_id(conversation_id@) || !well_formed_id(after_message_id@),
        r is Err ==> r == Err::<(), TurnError>(TurnError::Storage(StoreError::MalformedId))
            && *final(store) == *old(store),
        r is Ok ==> {
            &&& final(store).conversations@ == old(store).conversations@
            &&& final(store).clock == old(store).clock
            &&& match message_time(old(store).messages@, after_message_id@) {
                None => final(store).messages@ == old(store).messages@,
                Some(t) => final(store).messages@ == keep(
                    old(store).messages@,
                    survives(conversation_id@, t),
                ),
            }
        },
{
    if !is_well_formed_id(conversation_id) || !is_well_formed_id(after_message_id) {
        return Err(TurnError::Storage(StoreError::MalformedId));
    }
    delete_messages_after(store, conversation_id, after_message_id);
    Ok(())
}

} // verus!
